//! When one text can take another's place in a source of Typst, and what text is
//! left behind.
use vstd::prelude::*;
use vstd::utf8::{encode_scalar, encode_utf8};

verus! {

/// How many characters `a` and `b` share at their start.
pub open spec fn common_head(a: Seq<char>, b: Seq<char>) -> nat
    decreases a.len(),
{
    if a.len() > 0 && b.len() > 0 && a[0] == b[0] {
        1 + common_head(a.drop_first(), b.drop_first())
    } else {
        0
    }
}

/// How many characters `a` and `b` share at their end.
pub open spec fn common_tail(a: Seq<char>, b: Seq<char>) -> nat
    decreases a.len(),
{
    if a.len() > 0 && b.len() > 0 && a.last() == b.last() {
        1 + common_tail(a.drop_last(), b.drop_last())
    } else {
        0
    }
}

/// How many characters `old` and `new` share at their end, once what they share
/// at their start is set aside.
pub open spec fn common_rest(old: Seq<char>, new: Seq<char>) -> nat {
    let head = common_head(old, new) as int;
    common_tail(old.skip(head), new.skip(head))
}

/// The last byte of a character's UTF-8 encoding.
pub open spec fn last_byte(c: char) -> u8 {
    encode_scalar(c as u32).last()
}

/// Whether the last two characters in which `old` and `new` differ end in the
/// same byte.
pub open spec fn tails_clash(old: Seq<char>, new: Seq<char>) -> bool {
    let head = common_head(old, new);
    let tail = common_rest(old, new);
    &&& head + tail < old.len()
    &&& head + tail < new.len()
    &&& last_byte(old[old.len() - 1 - tail]) == last_byte(new[new.len() - 1 - tail])
}

/// Whether cutting `old` before its `i`-th and `new` before its `j`-th character
/// leaves tails that hold every character up to the last difference, reach no
/// further than the shared start, and encode to equally many bytes.
pub open spec fn cuts_align(old: Seq<char>, new: Seq<char>, i: int, j: int) -> bool {
    let head = common_head(old, new);
    let tail = common_rest(old, new);
    &&& head <= i < old.len() - tail
    &&& head <= j < new.len() - tail
    &&& encode_utf8(old.skip(i)).len() == encode_utf8(new.skip(j)).len()
}

/// Whether a source that holds `old` can be told to hold `new`.
pub open spec fn replaceable(old: Seq<char>, new: Seq<char>) -> bool {
    tails_clash(old, new) ==> exists|i: int, j: int| cuts_align(old, new, i, j)
}

/// Whether a source that held `old` holds `text` after being told to hold `new`, as
/// by `typst::syntax::Source::replace`.
///
/// That is `new`, unless the last difference is between two characters that end
/// in the same byte: then the tail of `old` stays, from the last place at which
/// both texts can be cut at the same distance from their end.
pub open spec fn replaced(old: Seq<char>, new: Seq<char>, text: Seq<char>) -> bool {
    if tails_clash(old, new) {
        exists|i: int, j: int|
            {
                &&& #[trigger] cuts_align(old, new, i, j)
                &&& forall|k: int, l: int| #[trigger] cuts_align(old, new, k, l) ==> k <= i && l <= j
                &&& text == new.take(j) + old.skip(i)
            }
    } else {
        text == new
    }
}

proof fn lemma_common_head(a: Seq<char>, b: Seq<char>, n: int)
    requires
        0 <= n <= a.len(),
        n <= b.len(),
        forall|k: int| 0 <= k < n ==> a[k] == b[k],
        n == a.len() || n == b.len() || a[n] != b[n],
    ensures
        common_head(a, b) == n,
    decreases n,
{
    if n > 0 {
        let a1 = a.drop_first();
        let b1 = b.drop_first();
        assert forall|k: int| 0 <= k < n - 1 implies a1[k] == b1[k] by {
            assert(a[k + 1] == b[k + 1]);
        }
        lemma_common_head(a1, b1, n - 1);
    }
}

proof fn lemma_common_tail(a: Seq<char>, b: Seq<char>, n: int)
    requires
        0 <= n <= a.len(),
        n <= b.len(),
        forall|k: int| 0 <= k < n ==> #[trigger] a[a.len() - 1 - k] == b[b.len() - 1 - k],
        n == a.len() || n == b.len() || a[a.len() - 1 - n] != b[b.len() - 1 - n],
    ensures
        common_tail(a, b) == n,
    decreases n,
{
    if n > 0 {
        let a1 = a.drop_last();
        let b1 = b.drop_last();
        assert(a[a.len() - 1 - 0] == b[b.len() - 1 - 0]);
        assert forall|k: int| 0 <= k < n - 1 implies #[trigger] a1[a1.len() - 1 - k] == b1[b1.len()
            - 1 - k] by {
            assert(a[a.len() - 1 - (k + 1)] == b[b.len() - 1 - (k + 1)]);
        }
        lemma_common_tail(a1, b1, n - 1);
    }
}

/// The encoding of a tail is that of its first character, then that of the rest.
proof fn lemma_tail_bytes(s: Seq<char>, i: int)
    requires
        0 <= i < s.len(),
    ensures
        encode_utf8(s.skip(i)).len() == encode_scalar(s[i] as u32).len() + encode_utf8(
            s.skip(i + 1),
        ).len(),
{
    assert(s.skip(i).drop_first() =~= s.skip(i + 1));
}

/// A longer tail has an encoding that is no shorter.
proof fn lemma_tail_bytes_monotonic(s: Seq<char>, i: int, j: int)
    requires
        0 <= i <= j <= s.len(),
    ensures
        encode_utf8(s.skip(i)).len() >= encode_utf8(s.skip(j)).len(),
    decreases j - i,
{
    if i < j {
        lemma_tail_bytes(s, i);
        lemma_tail_bytes_monotonic(s, i + 1, j);
    }
}

/// The encoding of a tail is no longer than that of the whole.
proof fn lemma_tail_bytes_within(s: Seq<char>, i: int)
    requires
        0 <= i <= s.len(),
    ensures
        encode_utf8(s.skip(i)).len() <= encode_utf8(s).len(),
{
    lemma_tail_bytes_monotonic(s, 0, i);
    assert(s.skip(0) =~= s);
}

/// Of two pairs of aligned cuts, one lies no later than the other in both texts.
proof fn lemma_cuts_nest(old: Seq<char>, new: Seq<char>, i: int, j: int, k: int, l: int)
    requires
        cuts_align(old, new, i, j),
        cuts_align(old, new, k, l),
        i <= k,
    ensures
        j <= l,
{
    if l < j {
        lemma_tail_bytes(new, l);
        lemma_tail_bytes_monotonic(new, l + 1, j);
        lemma_tail_bytes_monotonic(old, i, k);
    }
}

/// Where there are aligned cuts, there are last ones.
proof fn lemma_last_cuts(old: Seq<char>, new: Seq<char>, i: int, j: int) -> (last: (int, int))
    requires
        cuts_align(old, new, i, j),
    ensures
        cuts_align(old, new, last.0, last.1),
        forall|k: int, l: int| #[trigger]
            cuts_align(old, new, k, l) ==> k <= last.0 && l <= last.1,
    decreases old.len() - i + new.len() - j,
{
    if exists|k: int, l: int| #[trigger] cuts_align(old, new, k, l) && !(k <= i && l <= j) {
        let (k, l) = choose|k: int, l: int| #[trigger]
            cuts_align(old, new, k, l) && !(k <= i && l <= j);
        if i <= k {
            lemma_cuts_nest(old, new, i, j, k, l);
        } else {
            lemma_cuts_nest(old, new, k, l, i, j);
        }
        lemma_last_cuts(old, new, k, l)
    } else {
        (i, j)
    }
}

/// The text that a source which held `old` holds after being told to hold `new`.
pub open spec fn replaced_text(old: Seq<char>, new: Seq<char>) -> Seq<char> {
    choose|text: Seq<char>| replaced(old, new, text)
}

/// A replacement that can be made leaves one text and no other.
pub proof fn law_replacement_leaves_one_text(old: Seq<char>, new: Seq<char>)
    requires
        replaceable(old, new),
    ensures
        exists|text: Seq<char>| replaced(old, new, text),
        forall|s: Seq<char>, t: Seq<char>|
            replaced(old, new, s) && replaced(old, new, t) ==> s == t,
        replaced(old, new, replaced_text(old, new)),
        !tails_clash(old, new) ==> replaced_text(old, new) == new,
{
    if tails_clash(old, new) {
        let (i, j) = choose|i: int, j: int| cuts_align(old, new, i, j);
        let (k, l) = lemma_last_cuts(old, new, i, j);
        assert(replaced(old, new, new.take(l) + old.skip(k)));
    } else {
        assert(replaced(old, new, new));
    }
}

/// Whether every character of a text is ASCII.
pub open spec fn all_ascii(text: Seq<char>) -> bool {
    forall|i: int| 0 <= i < text.len() ==> (#[trigger] text[i] as u32) <= 0x7f
}

/// Where one of the two texts is all ASCII, the replacement can be made and the
/// source holds the new text.
pub proof fn law_ascii_is_replaced(old: Seq<char>, new: Seq<char>, text: Seq<char>)
    requires
        all_ascii(old) || all_ascii(new),
    ensures
        replaceable(old, new),
        replaced(old, new, text) <==> text == new,
{
    if tails_clash(old, new) {
        let tail = common_rest(old, new);
        let c = old[old.len() - 1 - tail];
        let d = new[new.len() - 1 - tail];
        lemma_rest_stops(old, new);
        if all_ascii(old) {
            lemma_ascii_last_byte(c, d);
        } else {
            lemma_ascii_last_byte(d, c);
        }
    }
}

/// An ASCII character ends in a byte that no other character ends in.
proof fn lemma_ascii_last_byte(c: char, d: char)
    requires
        (c as u32) <= 0x7f,
        last_byte(c) == last_byte(d),
    ensures
        c == d,
{
    let x = c as u32;
    let y = d as u32;
    assert(x <= 0x7f ==> (x & 0x7f) as u8 == x) by (bit_vector);
    assert(y <= 0x7f ==> (y & 0x7f) as u8 == y) by (bit_vector);
    assert(0x80 | (y & 0x3f) as u8 >= 0x80) by (bit_vector);
}

/// Just before the shared end, the two texts differ.
proof fn lemma_rest_stops(old: Seq<char>, new: Seq<char>)
    requires
        common_head(old, new) + common_rest(old, new) < old.len(),
        common_head(old, new) + common_rest(old, new) < new.len(),
    ensures
        old[old.len() - 1 - common_rest(old, new)] != new[new.len() - 1 - common_rest(old, new)],
{
    let head = common_head(old, new) as int;
    lemma_tail_stops(old.skip(head), new.skip(head));
}

proof fn lemma_tail_stops(a: Seq<char>, b: Seq<char>)
    ensures
        common_tail(a, b) <= a.len(),
        common_tail(a, b) <= b.len(),
        common_tail(a, b) < a.len() && common_tail(a, b) < b.len() ==> a[a.len() - 1 - common_tail(
            a,
            b,
        )] != b[b.len() - 1 - common_tail(a, b)],
    decreases a.len(),
{
    if a.len() > 0 && b.len() > 0 && a.last() == b.last() {
        lemma_tail_stops(a.drop_last(), b.drop_last());
    }
}

/// Whether two texts share their first `head` and their last `tail` characters, and
/// no more at either end.
spec fn share(old: Seq<char>, new: Seq<char>, head: int, tail: int) -> bool {
    &&& 0 <= head
    &&& 0 <= tail
    &&& head + tail <= old.len()
    &&& head + tail <= new.len()
    &&& forall|k: int| 0 <= k < head ==> old[k] == new[k]
    &&& forall|k: int| 0 <= k < tail ==> #[trigger] old[old.len() - 1 - k] == new[new.len() - 1 - k]
    &&& head == old.len() || head == new.len() || old[head] != new[head]
    &&& head + tail == old.len() || head + tail == new.len() || old[old.len() - 1 - tail]
        != new[new.len() - 1 - tail]
}

proof fn lemma_share(old: Seq<char>, new: Seq<char>, head: int, tail: int)
    requires
        share(old, new, head, tail),
    ensures
        common_head(old, new) == head,
        common_rest(old, new) == tail,
{
    lemma_common_head(old, new, head);
    let a = old.skip(head);
    let b = new.skip(head);
    assert forall|k: int| 0 <= k < tail implies #[trigger] a[a.len() - 1 - k] == b[b.len() - 1
        - k] by {
        assert(a[a.len() - 1 - k] == old[old.len() - 1 - k]);
        assert(b[b.len() - 1 - k] == new[new.len() - 1 - k]);
    }
    lemma_common_tail(a, b, tail);
}

proof fn lemma_last_byte(c: char)
    ensures
        encode_utf8(seq![c]).last() == last_byte(c),
{
    let text = seq![c];
    reveal_with_fuel(encode_utf8, 2);
    assert(text.drop_first() =~= Seq::empty());
    assert(encode_utf8(text) =~= encode_scalar(c as u32));
}

/// Two texts, one behind the other, encode to their encodings, one behind the other.
proof fn lemma_encode_concat(a: Seq<char>, b: Seq<char>)
    ensures
        encode_utf8(a + b) == encode_utf8(a) + encode_utf8(b),
    decreases a.len(),
{
    if a.len() == 0 {
        assert(a + b =~= b);
        assert(encode_utf8(a) + encode_utf8(b) =~= encode_utf8(b));
    } else {
        lemma_encode_concat(a.drop_first(), b);
        assert((a + b).drop_first() =~= a.drop_first() + b);
        assert(encode_utf8(a + b) =~= encode_utf8(a) + encode_utf8(b));
    }
}

/// A text that another one becomes by inserting characters in one place, or by
/// deleting some in one place, takes its place as it is.
pub proof fn law_insertion_and_deletion_are_exact(
    old: Seq<char>,
    new: Seq<char>,
    head: int,
    tail: int,
)
    requires
        0 <= head <= old.len(),
        0 <= tail <= old.len(),
        head <= new.len(),
        tail <= new.len(),
        forall|k: int| 0 <= k < head ==> old[k] == new[k],
        forall|k: int|
            0 <= k < tail ==> #[trigger] old[old.len() - 1 - k] == new[new.len() - 1 - k],
        head + tail >= old.len() || head + tail >= new.len(),
    ensures
        replaceable(old, new),
        replaced_text(old, new) == new,
        forall|text: Seq<char>| #[trigger] replaced(old, new, text) <==> text == new,
{
    let (h, t) = lemma_sharing(old, new);
    lemma_share(old, new, h, t);
    let shorter = if old.len() <= new.len() {
        old.len() as int
    } else {
        new.len() as int
    };
    if h + t < shorter {
        let k = t;
        if h < head {
            assert(old[h] == new[h]);
        }
        if t < tail {
            assert(old[old.len() - 1 - k] == new[new.len() - 1 - k]);
        }
        assert(h >= head && t >= tail);
    }
    law_replacement_leaves_one_text(old, new);
}

/// How much any two texts share.
proof fn lemma_sharing(old: Seq<char>, new: Seq<char>) -> (lens: (int, int))
    ensures
        share(old, new, lens.0, lens.1),
{
    let head = lemma_longest_head(old, new, 0);
    let tail = lemma_longest_tail(old, new, head, 0);
    (head, tail)
}

proof fn lemma_longest_head(old: Seq<char>, new: Seq<char>, from: int) -> (head: int)
    requires
        0 <= from <= old.len(),
        from <= new.len(),
        forall|k: int| 0 <= k < from ==> old[k] == new[k],
    ensures
        0 <= head <= old.len(),
        head <= new.len(),
        forall|k: int| 0 <= k < head ==> old[k] == new[k],
        head == old.len() || head == new.len() || old[head] != new[head],
    decreases old.len() - from,
{
    if from < old.len() && from < new.len() && old[from] == new[from] {
        lemma_longest_head(old, new, from + 1)
    } else {
        from
    }
}

proof fn lemma_longest_tail(old: Seq<char>, new: Seq<char>, head: int, from: int) -> (tail: int)
    requires
        0 <= head,
        0 <= from,
        head + from <= old.len(),
        head + from <= new.len(),
        forall|k: int|
            0 <= k < from ==> #[trigger] old[old.len() - 1 - k] == new[new.len() - 1 - k],
    ensures
        0 <= tail,
        head + tail <= old.len(),
        head + tail <= new.len(),
        forall|k: int|
            0 <= k < tail ==> #[trigger] old[old.len() - 1 - k] == new[new.len() - 1 - k],
        head + tail == old.len() || head + tail == new.len() || old[old.len() - 1 - tail]
            != new[new.len() - 1 - tail],
    decreases old.len() - from,
{
    if head + from < old.len() && head + from < new.len() && old[old.len() - 1 - from]
        == new[new.len() - 1 - from] {
        lemma_longest_tail(old, new, head, from + 1)
    } else {
        from
    }
}

/// Where the encodings of the last two characters in which two texts differ end in
/// different bytes, the new text takes the place of the old one as it is.
pub proof fn law_different_last_bytes_are_exact(
    old: Seq<char>,
    new: Seq<char>,
    head: int,
    tail: int,
)
    requires
        0 <= head,
        0 <= tail,
        head + tail < old.len(),
        head + tail < new.len(),
        forall|k: int| 0 <= k < head ==> old[k] == new[k],
        old[head] != new[head],
        forall|k: int|
            0 <= k < tail ==> #[trigger] old[old.len() - 1 - k] == new[new.len() - 1 - k],
        encode_utf8(seq![old[old.len() - 1 - tail]]).last() != encode_utf8(
            seq![new[new.len() - 1 - tail]],
        ).last(),
    ensures
        replaceable(old, new),
        replaced_text(old, new) == new,
        forall|text: Seq<char>| #[trigger] replaced(old, new, text) <==> text == new,
{
    lemma_last_byte(old[old.len() - 1 - tail]);
    lemma_last_byte(new[new.len() - 1 - tail]);
    lemma_share(old, new, head, tail);
    law_replacement_leaves_one_text(old, new);
}

/// Where the encodings of the last two characters in which two texts differ end in the
/// same byte, the texts have to be cut at the same number of bytes from their end,
/// between what they share, and the last such cuts part what is left of the new text
/// from what is left of the old one. If there are none, the old text cannot be
/// replaced.
pub proof fn law_equal_last_bytes_keep_the_old_tail(
    old: Seq<char>,
    new: Seq<char>,
    head: int,
    tail: int,
    i: int,
    j: int,
)
    requires
        0 <= head,
        0 <= tail,
        head + tail < old.len(),
        head + tail < new.len(),
        forall|k: int| 0 <= k < head ==> old[k] == new[k],
        old[head] != new[head],
        forall|k: int|
            0 <= k < tail ==> #[trigger] old[old.len() - 1 - k] == new[new.len() - 1 - k],
        old[old.len() - 1 - tail] != new[new.len() - 1 - tail],
        encode_utf8(seq![old[old.len() - 1 - tail]]).last() == encode_utf8(
            seq![new[new.len() - 1 - tail]],
        ).last(),
    ensures
        replaceable(old, new) <==> exists|k: int, l: int|
            head <= k < old.len() - tail && head <= l < new.len() - tail && #[trigger] encode_utf8(
                old.skip(k),
            ).len() == #[trigger] encode_utf8(new.skip(l)).len(),
        ({
            &&& head <= i < old.len() - tail
            &&& head <= j < new.len() - tail
            &&& encode_utf8(old.skip(i)).len() == encode_utf8(new.skip(j)).len()
            &&& forall|k: int, l: int|
                head <= k < old.len() - tail && head <= l < new.len() - tail
                    && #[trigger] encode_utf8(old.skip(k)).len() == #[trigger] encode_utf8(
                    new.skip(l),
                ).len() ==> k <= i && l <= j
        }) ==> replaced_text(old, new) == new.take(j) + old.skip(i),
        replaceable(old, new) ==> {
            let text = replaced_text(old, new);
            &&& text != new
            &&& encode_utf8(text).len() == encode_utf8(new).len()
        },
{
    lemma_last_byte(old[old.len() - 1 - tail]);
    lemma_last_byte(new[new.len() - 1 - tail]);
    lemma_share(old, new, head, tail);
    assert(tails_clash(old, new));
    if replaceable(old, new) {
        law_replacement_leaves_one_text(old, new);
        let (k, l) = choose|k: int, l: int| #[trigger] cuts_align(old, new, k, l);
        assert(encode_utf8(old.skip(k)).len() == encode_utf8(new.skip(l)).len());
        let text = replaced_text(old, new);
        let (m, n) = choose|m: int, n: int|
            {
                &&& #[trigger] cuts_align(old, new, m, n)
                &&& forall|k: int, l: int| #[trigger]
                    cuts_align(old, new, k, l) ==> k <= m && l <= n
                &&& text == new.take(n) + old.skip(m)
            };
        lemma_encode_concat(new.take(n), old.skip(m));
        lemma_encode_concat(new.take(n), new.skip(n));
        assert(new.take(n) + new.skip(n) =~= new);
        assert(text[text.len() - 1 - tail] == old[old.len() - 1 - tail]);
    }
    if exists|k: int, l: int|
        head <= k < old.len() - tail && head <= l < new.len() - tail && #[trigger] encode_utf8(
            old.skip(k),
        ).len() == #[trigger] encode_utf8(new.skip(l)).len() {
        let (k, l) = choose|k: int, l: int|
            head <= k < old.len() - tail && head <= l < new.len() - tail && #[trigger] encode_utf8(
                old.skip(k),
            ).len() == #[trigger] encode_utf8(new.skip(l)).len();
        assert(cuts_align(old, new, k, l));
    }
    if head <= i < old.len() - tail && head <= j < new.len() - tail && encode_utf8(
        old.skip(i),
    ).len() == encode_utf8(new.skip(j)).len() && (forall|k: int, l: int|
        head <= k < old.len() - tail && head <= l < new.len() - tail && #[trigger] encode_utf8(
            old.skip(k),
        ).len() == #[trigger] encode_utf8(new.skip(l)).len() ==> k <= i && l <= j) {
        assert(cuts_align(old, new, i, j));
        assert forall|k: int, l: int| #[trigger] cuts_align(old, new, k, l) implies k <= i && l
            <= j by {
            assert(encode_utf8(old.skip(k)).len() == encode_utf8(new.skip(l)).len());
        }
        assert(replaced(old, new, new.take(j) + old.skip(i)));
        law_replacement_leaves_one_text(old, new);
    }
}

/// The characters of a text.
pub(crate) fn chars_of(text: &str) -> (chars: Vec<char>)
    ensures
        chars@ == text@,
{
    let mut chars: Vec<char> = Vec::new();
    for c in it: text.chars()
        invariant
            chars@ == text@.take(it.index() as int),
            it.seq() == text@,
    {
        chars.push(c);
    }
    chars
}

/// The number of bytes in a character's UTF-8 encoding.
fn encoded_len(c: char) -> (len: usize)
    ensures
        len == encode_scalar(c as u32).len(),
{
    let scalar: u32 = c as u32;
    if scalar <= 0x7f {
        1
    } else if scalar <= 0x7ff {
        2
    } else if scalar <= 0xffff {
        3
    } else {
        4
    }
}

/// The last byte of a character's UTF-8 encoding.
fn encoded_last(c: char) -> (byte: u8)
    ensures
        byte == last_byte(c),
{
    let scalar: u32 = c as u32;
    if scalar <= 0x7f {
        (scalar & 0x7f) as u8
    } else {
        0x80 | (scalar & 0x3f) as u8
    }
}

/// Counts the characters that `a` and `b` share at their start.
fn count_head(a: &Vec<char>, b: &Vec<char>) -> (head: usize)
    ensures
        head == common_head(a@, b@),
        head <= a.len(),
        head <= b.len(),
        forall|k: int| 0 <= k < head ==> a[k] == b[k],
{
    let mut head: usize = 0;
    while head < a.len() && head < b.len() && a[head] == b[head]
        invariant
            head <= a.len(),
            head <= b.len(),
            forall|k: int| 0 <= k < head ==> a[k] == b[k],
        decreases a.len() - head,
    {
        head += 1;
    }
    proof {
        lemma_common_head(a@, b@, head as int);
    }
    head
}

/// Counts the characters that `a` and `b` share at their end, past the first
/// `head` characters of each.
fn count_rest(a: &Vec<char>, b: &Vec<char>, head: usize) -> (tail: usize)
    requires
        head <= a.len(),
        head <= b.len(),
        head == common_head(a@, b@),
    ensures
        tail == common_rest(a@, b@),
        head + tail <= a.len(),
        head + tail <= b.len(),
{
    let mut tail: usize = 0;
    let ghost rest_a = a@.skip(head as int);
    let ghost rest_b = b@.skip(head as int);
    while tail < a.len() - head && tail < b.len() - head && a[a.len() - 1 - tail] == b[b.len() - 1
        - tail]
        invariant
            head <= a.len(),
            head <= b.len(),
            tail <= a.len() - head,
            tail <= b.len() - head,
            rest_a == a@.skip(head as int),
            rest_b == b@.skip(head as int),
            forall|k: int|
                0 <= k < tail ==> #[trigger] rest_a[rest_a.len() - 1 - k] == rest_b[rest_b.len() - 1
                    - k],
        decreases a.len() - tail,
    {
        assert(rest_a[rest_a.len() - 1 - tail] == a[a.len() - 1 - tail]);
        assert(rest_b[rest_b.len() - 1 - tail] == b[b.len() - 1 - tail]);
        tail += 1;
    }
    proof {
        lemma_common_tail(rest_a, rest_b, tail as int);
    }
    tail
}

/// The number of bytes that `text`, whose characters are `chars`, encodes to from
/// the `start`-th character on.
fn bytes_from(text: &str, chars: &Vec<char>, start: usize) -> (bytes: usize)
    requires
        chars@ == text@,
        start <= chars.len(),
    ensures
        bytes == encode_utf8(text@.skip(start as int)).len(),
{
    let limit: usize = text.as_bytes().len();
    let mut i: usize = chars.len();
    let mut bytes: usize = 0;
    while start < i
        invariant
            chars@ == text@,
            start <= i <= chars.len(),
            limit == encode_utf8(text@).len(),
            bytes == encode_utf8(text@.skip(i as int)).len(),
        decreases i,
    {
        i -= 1;
        proof {
            lemma_tail_bytes(text@, i as int);
            lemma_tail_bytes_within(text@, i as int);
        }
        bytes += encoded_len(chars[i]);
    }
    bytes
}

/// Finds the last places at which two texts can be cut at the same distance, in
/// bytes, from their ends, past the `tail` characters that they share there and the
/// `head` characters that they share at their start.
fn find_cuts(
    old: &str,
    new: &str,
    a: &Vec<char>,
    b: &Vec<char>,
    head: usize,
    tail: usize,
) -> (cuts: Option<(usize, usize)>)
    requires
        a@ == old@,
        b@ == new@,
        head == common_head(old@, new@),
        tail == common_rest(old@, new@),
        head + tail < a.len(),
        head + tail < b.len(),
    ensures
        match cuts {
            Some((i, j)) => cuts_align(old@, new@, i as int, j as int) && forall|k: int, l: int|
                #[trigger] cuts_align(old@, new@, k, l) ==> k <= i && l <= j,
            None => forall|k: int, l: int| !#[trigger] cuts_align(old@, new@, k, l),
        },
{
    let mut i: usize = a.len() - tail - 1;
    let mut j: usize = b.len() - tail - 1;
    let mut old_bytes: usize = bytes_from(old, a, i);
    let mut new_bytes: usize = bytes_from(new, b, j);
    let old_limit: usize = old.as_bytes().len();
    let new_limit: usize = new.as_bytes().len();
    while old_bytes != new_bytes
        invariant
            a@ == old@,
            b@ == new@,
            head == common_head(old@, new@),
            tail == common_rest(old@, new@),
            head <= i < a.len() - tail,
            head <= j < b.len() - tail,
            old_limit == encode_utf8(old@).len(),
            new_limit == encode_utf8(new@).len(),
            old_bytes == encode_utf8(old@.skip(i as int)).len(),
            new_bytes == encode_utf8(new@.skip(j as int)).len(),
            forall|k: int, l: int| #[trigger] cuts_align(old@, new@, k, l) ==> k <= i && l <= j,
        decreases i + j,
    {
        if old_bytes < new_bytes {
            proof {
                assert forall|k: int, l: int| #[trigger] cuts_align(old@, new@, k, l) implies k
                    < i by {
                    lemma_tail_bytes_monotonic(new@, l, j as int);
                }
            }
            if i == head {
                return None;
            }
            i -= 1;
            proof {
                lemma_tail_bytes(old@, i as int);
                lemma_tail_bytes_within(old@, i as int);
            }
            old_bytes += encoded_len(a[i]);
        } else {
            proof {
                assert forall|k: int, l: int| #[trigger] cuts_align(old@, new@, k, l) implies l
                    < j by {
                    lemma_tail_bytes_monotonic(old@, k, i as int);
                }
            }
            if j == head {
                return None;
            }
            j -= 1;
            proof {
                lemma_tail_bytes(new@, j as int);
                lemma_tail_bytes_within(new@, j as int);
            }
            new_bytes += encoded_len(b[j]);
        }
    }
    Some((i, j))
}

/// The text that a source which held `old` holds after being told to hold `new`,
/// unless it cannot be told so.
pub fn left_text(old: &str, new: &str) -> (text: Option<String>)
    ensures
        match text {
            Some(text) => replaceable(old@, new@) && text@ == replaced_text(old@, new@),
            None => !replaceable(old@, new@),
        },
{
    let a: Vec<char> = chars_of(old);
    let b: Vec<char> = chars_of(new);
    let head: usize = count_head(&a, &b);
    let tail: usize = count_rest(&a, &b, head);
    if a.len() - head == tail || b.len() - head == tail || encoded_last(a[a.len() - 1 - tail])
        != encoded_last(b[b.len() - 1 - tail]) {
        proof {
            law_replacement_leaves_one_text(old@, new@);
        }
        return Some(new.to_owned());
    }
    match find_cuts(old, new, &a, &b, head, tail) {
        Some((i, j)) => {
            let mut text: String = new.substring_char(0, j).to_owned();
            text.append(old.substring_char(i, a.len()));
            proof {
                assert(cuts_align(old@, new@, i as int, j as int));
                assert(text@ =~= new@.take(j as int) + old@.skip(i as int));
                assert(replaced(old@, new@, text@));
                law_replacement_leaves_one_text(old@, new@);
            }
            Some(text)
        },
        None => None,
    }
}

} // verus!
