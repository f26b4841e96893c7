//! Names relative to a directory, and whether they lead out of it.
use crate::text::same_text;
use vstd::prelude::*;
use vstd::string::*;

verus! {

/// What a part of a path says.
#[derive(Clone, Copy, Debug, PartialEq, Eq, Structural)]
pub enum Part {
    /// Nothing: two separators side by side, or one at an end
    Empty,
    /// Stay
    Dot,
    /// Go up
    DotDot,
    /// Go down
    Ordinary,
}

/// What a part says.
pub open spec fn kind_of(part: Seq<char>) -> Part {
    if part.len() == 0 {
        Part::Empty
    } else if part == seq!['.'] {
        Part::Dot
    } else if part == seq!['.', '.'] {
        Part::DotDot
    } else {
        Part::Ordinary
    }
}

/// Whether a character separates the parts of a path: a slash, and a backslash where that does.
pub open spec fn is_separator(c: char, backslash: bool) -> bool {
    c == '/' || (backslash && c == '\\')
}

/// The parts of a path, which separators separate.
pub open spec fn parts_of(path: Seq<char>, backslash: bool) -> Seq<Seq<char>>
    decreases path.len(),
{
    if path.len() == 0 {
        seq![Seq::empty()]
    } else {
        let before = parts_of(path.drop_last(), backslash);
        if is_separator(path.last(), backslash) {
            before.push(Seq::empty())
        } else {
            before.drop_last().push(before.last().push(path.last()))
        }
    }
}

/// Whether a path starts with the letter of a drive and a separator.
pub open spec fn has_drive(path: Seq<char>, backslash: bool) -> bool {
    backslash && path.len() >= 3 && path[1] == ':' && is_separator(path[2], backslash)
}

/// Whether a path starts at a root.
pub open spec fn is_rooted(path: Seq<char>, backslash: bool) -> bool {
    ||| path.len() > 0 && is_separator(path[0], backslash)
    ||| has_drive(path, backslash)
}

/// How many parts belong to the root that a path starts at: the drive, or the machine and its
/// share, where backslashes separate.
pub open spec fn root_len(path: Seq<char>, backslash: bool) -> nat {
    if backslash && path.len() >= 2 && is_separator(path[0], backslash) && is_separator(
        path[1],
        backslash,
    ) {
        2
    } else if has_drive(path, backslash) {
        1
    } else {
        0
    }
}

/// Where some parts lead from a place: down, up, or nowhere. Nothing leads above a root, of which
/// the first so many parts of a place consist; where there is no root, what leads above the
/// first part stays in front.
pub open spec fn walked(
    rooted: bool,
    root: nat,
    place: Seq<Seq<char>>,
    parts: Seq<Seq<char>>,
) -> Seq<Seq<char>>
    decreases parts.len(),
{
    if parts.len() == 0 {
        place
    } else {
        let before = walked(rooted, root, place, parts.drop_last());
        match kind_of(parts.last()) {
            Part::Ordinary => before.push(parts.last()),
            Part::DotDot => if rooted && before.len() <= root {
                before
            } else if before.len() == 0 || kind_of(before.last()) == Part::DotDot {
                before.push(parts.last())
            } else {
                before.drop_last()
            },
            _ => before,
        }
    }
}

/// The place that a path leads to, part by part, with all that goes up resolved.
pub open spec fn resolved(path: Seq<char>, backslash: bool) -> Seq<Seq<char>> {
    walked(
        is_rooted(path, backslash),
        root_len(path, backslash),
        Seq::empty(),
        parts_of(path, backslash),
    )
}

/// Where a relative name leads from a directory, part by part, with all that goes up resolved.
pub open spec fn resolved_below(directory: Seq<char>, name: Seq<char>, backslash: bool) -> Seq<
    Seq<char>,
> {
    walked(
        is_rooted(directory, backslash),
        root_len(directory, backslash),
        resolved(directory, backslash),
        parts_of(name, false),
    )
}

/// Whether a place is a directory or lies below it, both being resolved.
pub open spec fn lies_within(place: Seq<Seq<char>>, directory: Seq<Seq<char>>) -> bool {
    &&& directory.is_prefix_of(place)
    &&& place.len() > directory.len() ==> kind_of(place[directory.len() as int]) != Part::DotDot
}

/// Whether a name starts at a root.
pub open spec fn is_rooted_name(name: Seq<char>) -> bool {
    name.len() > 0 && name[0] == '/'
}

/// Whether a name leads out of the destination, once all that goes up has been resolved. A name
/// that starts at a root is judged by the path that it makes with the destination. The parts of a
/// name are separated by slashes alone.
pub open spec fn leaves_destination(
    destination: Seq<char>,
    name: Seq<char>,
    target: Seq<char>,
    backslash: bool,
) -> bool {
    let directory = resolved(destination, backslash);
    if is_rooted_name(name) {
        ||| is_rooted(target, backslash) != is_rooted(destination, backslash)
        ||| !lies_within(resolved(target, backslash), directory)
    } else {
        !lies_within(resolved_below(destination, name, backslash), directory)
    }
}

/// How far down some parts lead: what goes down less what goes up.
pub open spec fn depth(parts: Seq<Seq<char>>) -> int
    decreases parts.len(),
{
    if parts.len() == 0 {
        0
    } else {
        depth(parts.drop_last()) + match kind_of(parts.last()) {
            Part::Ordinary => 1int,
            Part::DotDot => -1,
            _ => 0,
        }
    }
}

/// Whether some parts lead above where they start, at their end or on the way.
pub open spec fn goes_above(parts: Seq<Seq<char>>) -> bool {
    exists|k: int| 0 <= k <= parts.len() && depth(#[trigger] parts.take(k)) < 0
}

/// Whether a name stays below the directory that it is relative to all the way.
pub open spec fn stays_below(name: Seq<char>) -> bool {
    !is_rooted_name(name) && !goes_above(parts_of(name, false))
}

fn separates(c: char, backslash: bool) -> (r: bool)
    ensures
        r == is_separator(c, backslash),
{
    c == '/' || (backslash && c == '\\')
}

fn split(path: &str, backslash: bool) -> (r: Vec<String>)
    ensures
        crate::text::texts(r@) == parts_of(path@, backslash),
{
    let mut done: Vec<String> = Vec::new();
    let mut current = String::new();
    proof {
        assert(path@.take(0) =~= Seq::<char>::empty());
        assert(crate::text::texts(done@).push(current@) =~= parts_of(path@.take(0), backslash));
    }
    for c in it: path.chars()
        invariant
            it.seq() == path@,
            crate::text::texts(done@).push(current@) == parts_of(
                path@.take(it.index()),
                backslash,
            ),
    {
        let ghost before = crate::text::texts(done@);
        let ghost part = current@;
        proof {
            let now = path@.take(it.index() + 1);
            assert(now.drop_last() =~= path@.take(it.index()));
            assert(now.last() == c);
            assert(before.push(part).drop_last() =~= before);
        }
        if separates(c, backslash) {
            done.push(current);
            current = String::new();
            assert(crate::text::texts(done@) =~= before.push(part));
            assert(current@ =~= Seq::<char>::empty());
        } else {
            current.push(c);
        }
    }
    assert(path@.take(path@.len() as int) =~= path@);
    let ghost before = crate::text::texts(done@);
    let ghost part = current@;
    done.push(current);
    assert(crate::text::texts(done@) =~= before.push(part));
    done
}

fn kind(part: &str) -> (r: Part)
    ensures
        r == kind_of(part@),
{
    proof {
        reveal_strlit("");
        reveal_strlit(".");
        reveal_strlit("..");
        assert(""@ =~= Seq::<char>::empty());
        assert("."@ =~= seq!['.']);
        assert(".."@ =~= seq!['.', '.']);
        if part@.len() == 0 {
            assert(part@ =~= ""@);
        }
    }
    if same_text(part, "") {
        Part::Empty
    } else if same_text(part, ".") {
        Part::Dot
    } else if same_text(part, "..") {
        Part::DotDot
    } else {
        Part::Ordinary
    }
}

fn starts_with_drive(path: &str, backslash: bool) -> (r: bool)
    ensures
        r == has_drive(path@, backslash),
{
    backslash && path.unicode_len() >= 3 && path.get_char(1) == ':' && separates(
        path.get_char(2),
        backslash,
    )
}

fn starts_at_root(path: &str, backslash: bool) -> (r: bool)
    ensures
        r == is_rooted(path@, backslash),
{
    (path.unicode_len() > 0 && separates(path.get_char(0), backslash)) || starts_with_drive(
        path,
        backslash,
    )
}

fn count_root(path: &str, backslash: bool) -> (r: usize)
    ensures
        r == root_len(path@, backslash),
{
    if backslash && path.unicode_len() >= 2 && separates(path.get_char(0), backslash) && separates(
        path.get_char(1),
        backslash,
    ) {
        2
    } else if starts_with_drive(path, backslash) {
        1
    } else {
        0
    }
}

fn walk(rooted: bool, root: usize, place: Vec<String>, parts: &Vec<String>) -> (r: Vec<String>)
    ensures
        crate::text::texts(r@) == walked(
            rooted,
            root as nat,
            crate::text::texts(place@),
            crate::text::texts(parts@),
        ),
{
    let ghost start = crate::text::texts(place@);
    let ghost all = crate::text::texts(parts@);
    let mut place = place;
    assert(all.take(0) =~= Seq::<Seq<char>>::empty());
    for i in 0..parts.len()
        invariant
            all == crate::text::texts(parts@),
            crate::text::texts(place@) == walked(rooted, root as nat, start, all.take(i as int)),
    {
        let ghost before = crate::text::texts(place@);
        proof {
            assert(all.take(i + 1).drop_last() =~= all.take(i as int));
            assert(all.take(i + 1).last() == parts@[i as int]@);
            if before.len() > 0 {
                assert(before.last() == place@[place@.len() - 1]@);
            }
        }
        match kind(&parts[i]) {
            Part::Ordinary => {
                place.push(parts[i].clone());
                assert(crate::text::texts(place@) =~= before.push(parts@[i as int]@));
            },
            Part::DotDot => {
                if rooted && place.len() <= root {
                } else if place.len() == 0 || kind(&place[place.len() - 1]) == Part::DotDot {
                    place.push(parts[i].clone());
                    assert(crate::text::texts(place@) =~= before.push(parts@[i as int]@));
                } else {
                    let _ = place.pop();
                    assert(crate::text::texts(place@) =~= before.drop_last());
                }
            },
            _ => {},
        }
    }
    assert(all.take(all.len() as int) =~= all);
    place
}

fn resolve(path: &str, backslash: bool) -> (r: Vec<String>)
    ensures
        crate::text::texts(r@) == resolved(path@, backslash),
{
    let start: Vec<String> = Vec::new();
    assert(crate::text::texts(start@) =~= Seq::<Seq<char>>::empty());
    walk(
        starts_at_root(path, backslash),
        count_root(path, backslash),
        start,
        &split(path, backslash),
    )
}

fn is_within(place: &Vec<String>, directory: &Vec<String>) -> (r: bool)
    ensures
        r == lies_within(crate::text::texts(place@), crate::text::texts(directory@)),
{
    let ghost p = crate::text::texts(place@);
    let ghost d = crate::text::texts(directory@);
    if place.len() < directory.len() {
        return false;
    }
    for i in 0..directory.len()
        invariant
            p == crate::text::texts(place@),
            d == crate::text::texts(directory@),
            d.len() <= p.len(),
            forall|j: int| 0 <= j < i ==> p[j] == d[j],
    {
        if !same_text(&place[i], &directory[i]) {
            assert(p[i as int] != d[i as int]);
            assert(p.take(d.len() as int)[i as int] == p[i as int]);
            return false;
        }
    }
    assert(d =~= p.take(d.len() as int));
    if place.len() > directory.len() {
        kind(&place[directory.len()]) != Part::DotDot
    } else {
        true
    }
}

/// Whether a name leads out of the destination, given the path that it makes with the destination,
/// and whether backslashes separate the parts of a path.
pub fn is_outward(destination: &str, name: &str, target: &str, backslash: bool) -> (r: bool)
    ensures
        r == leaves_destination(destination@, name@, target@, backslash),
{
    let directory = resolve(destination, backslash);
    if name.unicode_len() > 0 && name.get_char(0) == '/' {
        let place = resolve(target, backslash);
        starts_at_root(target, backslash) != starts_at_root(destination, backslash) || !is_within(
            &place,
            &directory,
        )
    } else {
        let place = walk(
            starts_at_root(destination, backslash),
            count_root(destination, backslash),
            resolve(destination, backslash),
            &split(name, false),
        );
        !is_within(&place, &directory)
    }
}

proof fn lemma_goes_above_push(parts: Seq<Seq<char>>, part: Seq<char>)
    ensures
        goes_above(parts.push(part)) == (goes_above(parts) || depth(parts.push(part)) < 0),
{
    let more = parts.push(part);
    assert forall|k: int| 0 <= k <= parts.len() implies #[trigger] more.take(k) == parts.take(
        k,
    ) by {
        assert(more.take(k) =~= parts.take(k));
    }
    assert(more.take(more.len() as int) =~= more);
    if goes_above(parts) {
        let k = choose|k: int| 0 <= k <= parts.len() && depth(#[trigger] parts.take(k)) < 0;
        assert(depth(more.take(k)) < 0);
    }
    if goes_above(more) {
        let k = choose|k: int| 0 <= k <= more.len() && depth(#[trigger] more.take(k)) < 0;
        if k <= parts.len() {
            assert(depth(parts.take(k)) < 0);
        }
    }
}

proof fn lemma_walked_below(
    rooted: bool,
    root: nat,
    place: Seq<Seq<char>>,
    parts: Seq<Seq<char>>,
)
    requires
        !goes_above(parts),
    ensures
        ({
            let end = walked(rooted, root, place, parts);
            &&& place.is_prefix_of(end)
            &&& end.len() >= place.len() + depth(parts)
            &&& depth(parts) >= 0
            &&& forall|i: int|
                place.len() <= i < end.len() ==> kind_of(#[trigger] end[i]) != Part::DotDot
        }),
    decreases parts.len(),
{
    assert(parts.take(parts.len() as int) =~= parts);
    if parts.len() > 0 {
        let fewer = parts.drop_last();
        assert(fewer.push(parts.last()) =~= parts);
        lemma_goes_above_push(fewer, parts.last());
        lemma_walked_below(rooted, root, place, fewer);
        let before = walked(rooted, root, place, fewer);
        let end = walked(rooted, root, place, parts);
        assert(place =~= before.take(place.len() as int));
        assert(place =~= end.take(place.len() as int));
    }
}

/// A name that stays below the directory that it is relative to all the way never leads out of
/// it, whatever the directory is.
pub proof fn name_that_stays_below_does_not_leave(
    destination: Seq<char>,
    name: Seq<char>,
    target: Seq<char>,
    backslash: bool,
)
    requires
        stays_below(name),
    ensures
        !leaves_destination(destination, name, target, backslash),
{
    lemma_walked_below(
        is_rooted(destination, backslash),
        root_len(destination, backslash),
        resolved(destination, backslash),
        parts_of(name, false),
    );
}

/// A slash always separates, a backslash only where it is said to, and nothing else does.
pub proof fn slashes_separate(c: char, backslash: bool)
    ensures
        is_separator('/', backslash),
        is_separator('\\', backslash) <==> backslash,
        is_separator(c, backslash) ==> c == '/' || c == '\\',
{
}

/// A part says one thing: nothing where it is empty, to stay where it is one full stop, to go up
/// where it is two, and to go down in any other case, three full stops among them.
pub proof fn part_says_one_thing(part: Seq<char>)
    ensures
        kind_of(part) == Part::Empty <==> part.len() == 0,
        kind_of(part) == Part::Dot <==> part.len() == 1 && part[0] == '.',
        kind_of(part) == Part::DotDot <==> part.len() == 2 && part[0] == '.' && part[1] == '.',
{
    assert(part.len() == 1 && part[0] == '.' ==> part =~= seq!['.']);
    assert(part.len() == 2 && part[0] == '.' && part[1] == '.' ==> part =~= seq!['.', '.']);
}

/// A path falls into parts where separators stand, and nowhere else: what comes before a separator
/// and what comes after it fall into parts of their own, and a path without a separator is one part.
pub proof fn path_falls_into_parts(
    first: Seq<char>,
    separator: char,
    second: Seq<char>,
    backslash: bool,
)
    requires
        is_separator(separator, backslash),
    ensures
        parts_of(first + seq![separator] + second, backslash) == parts_of(first, backslash)
            + parts_of(second, backslash),
        parts_of(second, backslash).len() > 0,
        (forall|i: int| 0 <= i < second.len() ==> !is_separator(#[trigger] second[i], backslash))
            ==> parts_of(second, backslash) == seq![second],
    decreases second.len(),
{
    let whole = first + seq![separator] + second;
    if second.len() == 0 {
        assert(whole.drop_last() =~= first);
        assert(whole.last() == separator);
        assert(second =~= Seq::empty());
        assert(parts_of(whole, backslash) =~= parts_of(first, backslash) + parts_of(
            second,
            backslash,
        ));
        assert(parts_of(second, backslash) =~= seq![second]);
    } else {
        let fewer = second.drop_last();
        let c = second.last();
        path_falls_into_parts(first, separator, fewer, backslash);
        assert(whole.drop_last() =~= first + seq![separator] + fewer);
        assert(whole.last() == c);
        assert(parts_of(whole, backslash) =~= parts_of(first, backslash) + parts_of(
            second,
            backslash,
        ));
        if forall|i: int| 0 <= i < second.len() ==> !is_separator(#[trigger] second[i], backslash) {
            assert forall|i: int| 0 <= i < fewer.len() implies !is_separator(
                #[trigger] fewer[i],
                backslash,
            ) by {
                assert(fewer[i] == second[i]);
            }
            assert(!is_separator(second[second.len() - 1], backslash));
            assert(fewer.push(c) =~= second);
            assert(parts_of(second, backslash) =~= seq![second]);
        }
    }
}

/// Some parts lead where the first of them lead, and from there where the others do.
pub proof fn parts_lead_on_from_each_other(
    rooted: bool,
    root: nat,
    place: Seq<Seq<char>>,
    first: Seq<Seq<char>>,
    second: Seq<Seq<char>>,
)
    ensures
        walked(rooted, root, place, first + second) == walked(
            rooted,
            root,
            walked(rooted, root, place, first),
            second,
        ),
    decreases second.len(),
{
    if second.len() == 0 {
        assert(first + second =~= first);
    } else {
        assert((first + second).drop_last() =~= first + second.drop_last());
        parts_lead_on_from_each_other(rooted, root, place, first, second.drop_last());
    }
}

/// One part leads one step: an empty one and a full stop nowhere, a name down to it, and two full
/// stops back up from where a name led, or nowhere from a root.
pub proof fn part_leads_one_step(
    rooted: bool,
    root: nat,
    place: Seq<Seq<char>>,
    part: Seq<char>,
    up: Seq<char>,
)
    requires
        kind_of(up) == Part::DotDot,
    ensures
        walked(rooted, root, place, Seq::empty()) == place,
        kind_of(part) == Part::Empty || kind_of(part) == Part::Dot ==> walked(
            rooted,
            root,
            place,
            seq![part],
        ) == place,
        kind_of(part) == Part::Ordinary ==> {
            &&& walked(rooted, root, place, seq![part]) == place.push(part)
            &&& !rooted || root <= place.len() ==> walked(rooted, root, place, seq![part, up])
                == place
        },
        rooted && place.len() <= root ==> walked(rooted, root, place, seq![up]) == place,
        !rooted && place.len() == 0 ==> walked(rooted, root, place, seq![up]) == seq![up],
        !rooted && place.len() > 0 && kind_of(place.last()) == Part::DotDot ==> walked(
            rooted,
            root,
            place,
            seq![up],
        ) == place.push(up),
{
    reveal_with_fuel(walked, 3);
    assert(seq![part].drop_last() =~= Seq::<Seq<char>>::empty());
    assert(seq![up].drop_last() =~= Seq::<Seq<char>>::empty());
    assert(seq![part, up].drop_last() =~= seq![part]);
    assert(place.push(part).drop_last() =~= place);
    assert(Seq::<Seq<char>>::empty().push(up) =~= seq![up]);
    if place.len() == 0 {
        assert(place =~= Seq::<Seq<char>>::empty());
    }
}

/// A path that starts at a root is resolved to names alone, and never leads above its root.
pub proof fn nothing_leads_above_a_root(
    root: nat,
    place: Seq<Seq<char>>,
    parts: Seq<Seq<char>>,
)
    requires
        root <= place.len(),
        forall|i: int| 0 <= i < place.len() ==> kind_of(#[trigger] place[i]) == Part::Ordinary,
    ensures
        ({
            let end = walked(true, root, place, parts);
            &&& root <= end.len()
            &&& end.take(root as int) == place.take(root as int)
            &&& forall|i: int| 0 <= i < end.len() ==> kind_of(#[trigger] end[i]) == Part::Ordinary
        }),
    decreases parts.len(),
{
    if parts.len() > 0 {
        nothing_leads_above_a_root(root, place, parts.drop_last());
        let before = walked(true, root, place, parts.drop_last());
        let end = walked(true, root, place, parts);
        assert(end.take(root as int) =~= before.take(root as int));
    }
}

/// Where slashes alone separate, a path starts at a root exactly where it starts with one, and the
/// root has no parts. Where backslashes separate too, it may also start with one of those, or with
/// the letter of a drive, a colon and a separator; the drive is then the root, and of a path that
/// starts with two separators the machine and its share are.
pub proof fn root_is_where_a_path_starts(path: Seq<char>)
    ensures
        is_rooted(path, false) <==> path.len() > 0 && path[0] == '/',
        root_len(path, false) == 0,
        is_rooted(path, true) <==> {
            ||| path.len() > 0 && (path[0] == '/' || path[0] == '\\')
            ||| path.len() >= 3 && path[1] == ':' && (path[2] == '/' || path[2] == '\\')
        },
        root_len(path, true) == 2 <==> path.len() >= 2 && (path[0] == '/' || path[0] == '\\') && (
        path[1] == '/' || path[1] == '\\'),
        root_len(path, true) == 1 <==> root_len(path, true) != 2 && path.len() >= 3 && path[1] == ':'
            && (path[2] == '/' || path[2] == '\\'),
        root_len(path, true) <= 2,
        is_rooted_name(path) <==> path.len() > 0 && path[0] == '/',
{
}

proof fn lemma_parts_without_backslash(name: Seq<char>, backslash: bool)
    requires
        !name.contains('\\'),
    ensures
        parts_of(name, backslash) == parts_of(name, false),
    decreases name.len(),
{
    if name.len() > 0 {
        assert(name.contains(name[name.len() - 1]));
        assert(!name.drop_last().contains('\\')) by {
            if name.drop_last().contains('\\') {
                let i = choose|i: int|
                    0 <= i < name.drop_last().len() && name.drop_last()[i] == '\\';
                assert(name[i] == '\\');
            }
        }
        lemma_parts_without_backslash(name.drop_last(), backslash);
    }
}

/// A relative name leads from a directory to where the directory, a slash and the name lead as one
/// path. Where backslashes separate, the directory is taken to be long enough to say which drive it
/// is on, and the name to hold none.
pub proof fn name_leads_where_the_whole_path_leads(
    directory: Seq<char>,
    name: Seq<char>,
    backslash: bool,
)
    requires
        directory.len() > 0,
        backslash ==> directory.len() >= 3 && !name.contains('\\'),
    ensures
        resolved_below(directory, name, backslash) == resolved(
            directory + seq!['/'] + name,
            backslash,
        ),
{
    let whole = directory + seq!['/'] + name;
    assert(whole[0] == directory[0]);
    if backslash {
        assert(whole[1] == directory[1] && whole[2] == directory[2]);
        lemma_parts_without_backslash(name, backslash);
    }
    path_falls_into_parts(directory, '/', name, backslash);
    parts_lead_on_from_each_other(
        is_rooted(directory, backslash),
        root_len(directory, backslash),
        Seq::empty(),
        parts_of(directory, backslash),
        parts_of(name, backslash),
    );
}

/// A place lies within a directory exactly where it is made of the directory and what lies below
/// it, which does not go up.
pub proof fn place_within_is_made_of_the_directory(
    place: Seq<Seq<char>>,
    directory: Seq<Seq<char>>,
    rest: Seq<Seq<char>>,
)
    ensures
        lies_within(directory + rest, directory) <==> rest.len() == 0 || kind_of(rest[0])
            != Part::DotDot,
        lies_within(place, directory) ==> place.len() >= directory.len() && place == directory
            + place.skip(directory.len() as int),
{
    let whole = directory + rest;
    assert(directory =~= whole.take(directory.len() as int));
    assert(directory.is_prefix_of(whole));
    if lies_within(place, directory) {
        assert(place =~= directory + place.skip(directory.len() as int));
    }
}

/// A name leaves a destination exactly where it leads to a place that does not lie within it: a
/// relative name from the destination, and one that starts at a root by the path that it makes,
/// which must start at a root exactly where the destination does.
pub proof fn name_leaves_where_it_leads_outside(
    destination: Seq<char>,
    name: Seq<char>,
    target: Seq<char>,
    backslash: bool,
)
    ensures
        name.len() > 0 && name[0] == '/' ==> (leaves_destination(
            destination,
            name,
            target,
            backslash,
        ) <==> is_rooted(target, backslash) != is_rooted(destination, backslash) || !lies_within(
            resolved(target, backslash),
            resolved(destination, backslash),
        )),
        name.len() == 0 || name[0] != '/' ==> (leaves_destination(
            destination,
            name,
            target,
            backslash,
        ) <==> !lies_within(
            resolved_below(destination, name, backslash),
            resolved(destination, backslash),
        )),
{
}

/// A path leads where its parts lead from its start, never above the root that it starts at.
pub proof fn path_leads_where_its_parts_lead(path: Seq<char>, backslash: bool)
    ensures
        resolved(path, backslash) == walked(
            is_rooted(path, backslash),
            root_len(path, backslash),
            Seq::empty(),
            parts_of(path, backslash),
        ),
        is_rooted(path, backslash) && root_len(path, backslash) == 0 ==> forall|i: int|
            0 <= i < resolved(path, backslash).len() ==> kind_of(
                #[trigger] resolved(path, backslash)[i],
            ) == Part::Ordinary,
{
    if is_rooted(path, backslash) && root_len(path, backslash) == 0 {
        nothing_leads_above_a_root(0, Seq::empty(), parts_of(path, backslash));
    }
}

} // verus!
