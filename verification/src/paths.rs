//! Paths in a project, and where they are rooted.
use vstd::prelude::*;

verus! {

/// The parts of a path that slashes separate.
pub open spec fn parts(path: Seq<char>) -> Seq<Seq<char>>
    decreases path.len(),
{
    if path.len() == 0 {
        seq![Seq::empty()]
    } else {
        let before = parts(path.drop_last());
        if path.last() == '/' {
            before.push(Seq::empty())
        } else {
            before.drop_last().push(before.last().push(path.last()))
        }
    }
}

/// The part that stands for the place itself.
pub open spec fn here() -> Seq<char> {
    seq!['.']
}

/// The part that stands for the place above.
pub open spec fn above() -> Seq<char> {
    seq!['.', '.']
}

/// Whether a part is the name of something.
pub open spec fn is_name(part: Seq<char>) -> bool {
    part.len() > 0 && part != here() && part != above()
}

/// The place that a part leads to from another place. Places are given by the
/// parts that lead to them from the root.
pub open spec fn enter(place: Seq<Seq<char>>, part: Seq<char>) -> Seq<Seq<char>> {
    if part.len() == 0 || part == here() {
        place
    } else if part == above() && place.len() > 0 && place.last() != above() {
        place.drop_last()
    } else {
        place.push(part)
    }
}

/// The place that parts lead to, one after the other, from the root.
pub open spec fn place(parts: Seq<Seq<char>>) -> Seq<Seq<char>>
    decreases parts.len(),
{
    if parts.len() == 0 {
        Seq::empty()
    } else {
        enter(place(parts.drop_last()), parts.last())
    }
}

/// Parts, each behind a slash.
pub open spec fn spelled(parts: Seq<Seq<char>>) -> Seq<char>
    decreases parts.len(),
{
    if parts.len() == 0 {
        Seq::empty()
    } else {
        spelled(parts.drop_last()).push('/') + parts.last()
    }
}

/// The path, from the root, of the place that a path leads to. There is nothing
/// above the root, so that what leads there is kept.
pub open spec fn rooted_path(path: Seq<char>) -> Seq<char> {
    let place = place(parts(path));
    if place.len() == 0 {
        seq!['/']
    } else {
        spelled(place)
    }
}

/// Whether a path starts at the root and goes down from there, name by name.
pub open spec fn is_plain(path: Seq<char>) -> bool {
    &&& parts(path).len() > 1
    &&& parts(path)[0].len() == 0
    &&& forall|i: int| 1 <= i < parts(path).len() ==> is_name(#[trigger] parts(path)[i])
}

/// Spelling out the parts of a path gives the path, behind a slash.
proof fn lemma_spelled_parts(path: Seq<char>)
    ensures
        parts(path).len() > 0,
        spelled(parts(path)) == seq!['/'] + path,
    decreases path.len(),
{
    if path.len() == 0 {
        reveal_with_fuel(spelled, 2);
        assert(seq![Seq::<char>::empty()].drop_last() =~= Seq::empty());
        assert(spelled(parts(path)) =~= seq!['/'] + path);
    } else {
        let before = parts(path.drop_last());
        lemma_spelled_parts(path.drop_last());
        let last = if path.last() == '/' {
            Seq::empty()
        } else {
            before.last().push(path.last())
        };
        let rest = if path.last() == '/' {
            before
        } else {
            before.drop_last()
        };
        assert(parts(path) == rest.push(last));
        assert(rest.push(last).drop_last() =~= rest);
        assert(spelled(parts(path)) == spelled(rest).push('/') + last);
        assert(path =~= path.drop_last().push(path.last()));
        assert(spelled(parts(path)) =~= spelled(before).push(path.last()));
    }
}

/// Names lead to where they say.
proof fn lemma_names_are_a_place(names: Seq<Seq<char>>)
    requires
        forall|i: int| 0 <= i < names.len() ==> is_name(#[trigger] names[i]),
    ensures
        place(names) == names,
    decreases names.len(),
{
    if names.len() > 0 {
        lemma_names_are_a_place(names.drop_last());
        assert(names.drop_last().push(names.last()) =~= names);
    }
}

/// A part before others that leads nowhere makes no difference.
proof fn lemma_leading_part(parts: Seq<Seq<char>>)
    ensures
        place(seq![Seq::<char>::empty()] + parts) == place(parts),
        spelled(seq![Seq::<char>::empty()] + parts) == seq!['/'] + spelled(parts),
    decreases parts.len(),
{
    let all = seq![Seq::<char>::empty()] + parts;
    if parts.len() == 0 {
        reveal_with_fuel(place, 2);
        reveal_with_fuel(spelled, 2);
        assert(all.drop_last() =~= Seq::empty());
        assert(spelled(all) =~= seq!['/'] + spelled(parts));
    } else {
        lemma_leading_part(parts.drop_last());
        assert(all.drop_last() =~= seq![Seq::<char>::empty()] + parts.drop_last());
        assert(spelled(all) =~= seq!['/'] + spelled(parts));
    }
}

/// A path that starts at the root and goes down from there, name by name, is
/// rooted as it is.
pub proof fn law_plain_path_is_rooted(path: Seq<char>)
    requires
        is_plain(path),
    ensures
        rooted_path(path) == path,
{
    let names = parts(path).skip(1);
    assert(parts(path)[0] =~= Seq::empty());
    assert(parts(path) =~= seq![Seq::<char>::empty()] + names);
    assert forall|i: int| 0 <= i < names.len() implies is_name(#[trigger] names[i]) by {
        assert(names[i] == parts(path)[i + 1]);
    }
    lemma_spelled_parts(path);
    lemma_leading_part(names);
    lemma_names_are_a_place(names);
    assert((seq!['/'] + path).skip(1) =~= path);
    assert((seq!['/'] + spelled(names)).skip(1) =~= spelled(names));
}

/// A path that goes down name by name, from no place in particular, is rooted by a
/// slash before it.
pub proof fn law_relative_path_is_rooted(path: Seq<char>)
    requires
        forall|i: int| 0 <= i < parts(path).len() ==> is_name(#[trigger] parts(path)[i]),
    ensures
        rooted_path(path) == seq!['/'] + path,
{
    lemma_spelled_parts(path);
    lemma_names_are_a_place(parts(path));
}

/// Whether parts can be those of a place: no slash is in them, none stands for the
/// place itself, and what leads above comes before every name.
spec fn is_place(parts: Seq<Seq<char>>) -> bool {
    &&& forall|i: int|
        0 <= i < parts.len() ==> (#[trigger] parts[i]).len() > 0 && parts[i] != here()
            && !parts[i].contains('/')
    &&& forall|i: int, j: int|
        0 <= i < j < parts.len() && #[trigger] parts[j] == above() ==> #[trigger] parts[i]
            == above()
}

proof fn lemma_parts_hold_no_slash(path: Seq<char>)
    ensures
        parts(path).len() > 0,
        forall|i: int| 0 <= i < parts(path).len() ==> !(#[trigger] parts(path)[i]).contains('/'),
    decreases path.len(),
{
    if path.len() > 0 {
        lemma_parts_hold_no_slash(path.drop_last());
        let before = parts(path.drop_last());
        if path.last() != '/' {
            let last = before.last().push(path.last());
            assert(!before.last().contains('/'));
            assert forall|k: int| 0 <= k < last.len() implies last[k] != '/' by {
                if k < before.last().len() {
                    assert(before.last()[k] == last[k]);
                }
            }
        }
    }
}

proof fn lemma_place_is_place(parts: Seq<Seq<char>>)
    requires
        forall|i: int| 0 <= i < parts.len() ==> !(#[trigger] parts[i]).contains('/'),
    ensures
        is_place(place(parts)),
    decreases parts.len(),
{
    if parts.len() > 0 {
        lemma_place_is_place(parts.drop_last());
        assert(!parts[parts.len() - 1].contains('/'));
    }
}

proof fn lemma_place_stays(parts: Seq<Seq<char>>)
    requires
        is_place(parts),
    ensures
        place(parts) == parts,
    decreases parts.len(),
{
    if parts.len() > 0 {
        let before = parts.drop_last();
        assert forall|i: int, j: int|
            0 <= i < j < before.len() && #[trigger] before[j] == above() implies #[trigger] before[i]
            == above() by {
            assert(parts[j] == above());
            assert(parts[i] == above());
        }
        assert forall|i: int| 0 <= i < before.len() implies (#[trigger] before[i]).len() > 0
            && before[i] != here() && !before[i].contains('/') by {
            assert(before[i] == parts[i]);
        }
        lemma_place_stays(before);
        assert(parts[parts.len() - 1].len() > 0);
        if parts.len() > 1 && parts.last() == above() {
            assert(parts[parts.len() - 2] == above());
        }
        assert(before.push(parts.last()) =~= parts);
    }
}

/// A part without slashes is a part of its own behind a slash.
proof fn lemma_parts_push(path: Seq<char>, part: Seq<char>)
    requires
        !part.contains('/'),
    ensures
        parts(path.push('/') + part) == parts(path).push(part),
    decreases part.len(),
{
    let whole = path.push('/') + part;
    if part.len() == 0 {
        assert(whole =~= path.push('/'));
        assert(whole.drop_last() =~= path);
        assert(part =~= Seq::empty());
    } else {
        let front = part.drop_last();
        assert(part[part.len() - 1] != '/');
        assert(!front.contains('/')) by {
            if front.contains('/') {
                let k = choose|k: int| 0 <= k < front.len() && front[k] == '/';
                assert(part[k] == '/');
            }
        }
        lemma_parts_push(path, front);
        assert(whole.drop_last() =~= path.push('/') + front);
        assert(parts(path).push(front).drop_last() =~= parts(path));
        assert(front.push(part.last()) =~= part);
    }
}

proof fn lemma_parts_of_spelled(place: Seq<Seq<char>>)
    requires
        forall|i: int| 0 <= i < place.len() ==> !(#[trigger] place[i]).contains('/'),
    ensures
        parts(spelled(place)) == seq![Seq::<char>::empty()] + place,
    decreases place.len(),
{
    let root = seq![Seq::<char>::empty()];
    if place.len() == 0 {
        assert(root + place =~= root);
    } else {
        lemma_parts_of_spelled(place.drop_last());
        assert(!place[place.len() - 1].contains('/'));
        lemma_parts_push(spelled(place.drop_last()), place.last());
        assert((root + place.drop_last()).push(place.last()) =~= root + place);
    }
}

/// What is rooted stays as it is when it is rooted again.
pub proof fn law_rooted_path_stays(path: Seq<char>)
    ensures
        rooted_path(rooted_path(path)) == rooted_path(path),
{
    lemma_parts_hold_no_slash(path);
    lemma_place_is_place(parts(path));
    let place = place(parts(path));
    if place.len() == 0 {
        reveal_with_fuel(parts, 2);
        reveal_with_fuel(self::place, 3);
        assert(seq!['/'].drop_last() =~= Seq::empty());
        let both = seq![Seq::<char>::empty()].push(Seq::empty());
        assert(both.drop_last() =~= seq![Seq::<char>::empty()]);
        assert(both.drop_last().drop_last() =~= Seq::empty());
    } else {
        lemma_parts_of_spelled(place);
        lemma_leading_part(place);
        lemma_place_stays(place);
    }
}

/// A slash before a path makes another empty part.
proof fn lemma_parts_behind_slash(path: Seq<char>)
    ensures
        parts(seq!['/'] + path) == seq![Seq::<char>::empty()] + parts(path),
    decreases path.len(),
{
    let whole = seq!['/'] + path;
    let root = seq![Seq::<char>::empty()];
    if path.len() == 0 {
        reveal_with_fuel(parts, 2);
        assert(whole.drop_last() =~= Seq::empty());
        assert(parts(whole) =~= root + parts(path));
    } else {
        lemma_parts_behind_slash(path.drop_last());
        lemma_parts_hold_no_slash(path.drop_last());
        assert(whole.drop_last() =~= seq!['/'] + path.drop_last());
        assert(parts(whole) =~= root + parts(path));
    }
}

/// Paths are walked from the root, part by part: a name goes down, `..` goes back up
/// from there, and an empty part or `.` stays. It makes no difference whether the path
/// starts with a slash.
pub proof fn law_paths_are_walked(path: Seq<char>, name: Seq<char>)
    requires
        name.len() > 0,
        forall|i: int| 0 <= i < name.len() ==> name[i] != '/',
        name != seq!['.'],
        name != seq!['.', '.'],
    ensures
        rooted_path(Seq::empty()) == seq!['/'],
        rooted_path(seq!['/'] + path) == rooted_path(path),
        rooted_path(path + seq!['/']) == rooted_path(path),
        rooted_path(path + seq!['/', '.']) == rooted_path(path),
        rooted_path(path + seq!['/'] + name) == if rooted_path(path) == seq!['/'] {
            seq!['/'] + name
        } else {
            rooted_path(path) + seq!['/'] + name
        },
        rooted_path(path + seq!['/'] + name + seq!['/', '.', '.']) == rooted_path(path),
        rooted_path(seq!['/', '.', '.']) == seq!['/', '.', '.'],
{
    let before = parts(path);
    let at = place(before);
    lemma_parts_hold_no_slash(path);
    lemma_place_is_place(before);

    assert(rooted_path(Seq::empty()) == seq!['/']) by {
        reveal_with_fuel(parts, 1);
        reveal_with_fuel(self::place, 2);
        assert(seq![Seq::<char>::empty()].drop_last() =~= Seq::empty());
    }
    lemma_parts_behind_slash(path);
    lemma_leading_part(before);

    lemma_parts_push(path, Seq::empty());
    assert(path.push('/') + Seq::empty() =~= path + seq!['/']);
    assert(before.push(Seq::empty()).drop_last() =~= before);

    assert(!here().contains('/'));
    lemma_parts_push(path, here());
    assert(path.push('/') + here() =~= path + seq!['/', '.']);
    assert(before.push(here()).drop_last() =~= before);

    lemma_parts_push(path, name);
    let down = path + seq!['/'] + name;
    assert(path.push('/') + name =~= down);
    assert(before.push(name).drop_last() =~= before);
    assert(parts(down) == before.push(name));
    assert(place(parts(down)) == at.push(name));
    assert(at.push(name).drop_last() =~= at);
    if at.len() == 0 {
        assert(spelled(at) == Seq::<char>::empty());
        assert(spelled(at.push(name)) == spelled(at).push('/') + name);
        assert(spelled(at.push(name)) =~= seq!['/'] + name);
    } else {
        lemma_spelled_is_long(at);
        assert(spelled(at.push(name)) =~= spelled(at) + seq!['/'] + name);
    }

    assert(!above().contains('/'));
    lemma_parts_push(down, above());
    assert(down.push('/') + above() =~= down + seq!['/', '.', '.']);
    assert(parts(down).push(above()).drop_last() =~= parts(down));

    assert(rooted_path(seq!['/', '.', '.']) == seq!['/', '.', '.']) by {
        lemma_parts_push(Seq::empty(), above());
        assert(Seq::empty().push('/') + above() =~= seq!['/', '.', '.']);
        let root = parts(Seq::empty());
        assert(root.push(above()).drop_last() =~= root);
        assert(root.drop_last() =~= Seq::empty());
        reveal_with_fuel(self::place, 3);
        reveal_with_fuel(spelled, 2);
        assert(place(root.push(above())) =~= seq![above()]);
        assert(seq![above()].drop_last() =~= Seq::empty());
        assert(spelled(seq![above()]) =~= seq!['/', '.', '.']);
    }
}

/// A place below the root is spelled with more than a slash.
proof fn lemma_spelled_is_long(place: Seq<Seq<char>>)
    requires
        place.len() > 0,
        is_place(place),
    ensures
        spelled(place).len() > 1,
{
    assert(place[place.len() - 1].len() > 0);
}

} // verus!
