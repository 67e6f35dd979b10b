use vstd::prelude::*;
use vstd::string::{StrSliceExecFns, StringExecFns};

verus! {

/// One entry of a watched directory as observed by a single listing.
///
/// `modified` is the last-modification time in whole seconds since the Unix
/// epoch, or `None` when the entry's metadata could not be read.
#[derive(Debug, Clone, PartialEq, Eq)]
pub struct Entry {
    pub name: String,
    pub is_file: bool,
    pub modified: Option<i64>,
}

/// An entry qualifies for moving when it is a regular file whose metadata was
/// readable and whose modification time lies at or before `now - min_age`.
pub open spec fn eligible(e: Entry, min_age: u32, now: i64) -> bool {
    e.is_file && match e.modified {
        Some(t) => t <= now - min_age,
        None => false,
    }
}

/// Decides whether `entry` is old enough to move, relative to the reference
/// time `time` and the threshold `min_time` (both in seconds).
pub fn check_valid_entry(entry: &Entry, min_time: u32, time: i64) -> (r: bool)
    ensures
        r == eligible(*entry, min_time, time),
{
    if !entry.is_file {
        return false;
    }
    match entry.modified {
        Some(t) => (t as i128) <= (time as i128) - (min_time as i128),
        None => false,
    }
}

/// `name` placed inside the directory `dir`: a separator is inserted unless
/// `dir` is empty or already ends with one.
pub open spec fn joined(dir: Seq<char>, name: Seq<char>) -> Seq<char> {
    if dir.len() == 0 {
        name
    } else if dir.last() == '/' {
        dir + name
    } else {
        dir + seq!['/'] + name
    }
}

/// Places the base name `name` inside the directory `dir`.
pub fn join_path(dir: &String, name: &String) -> (r: String)
    ensures
        r@ == joined(dir@, name@),
{
    let n = dir.as_str().unicode_len();
    let mut r = dir.clone();
    if n > 0 && dir.as_str().get_char(n - 1) != '/' {
        r.append("/");
        proof {
            reveal_strlit("/");
        }
    }
    r.append(name.as_str());
    r
}

/// One relocation: the file at `from` goes to `to`.
#[derive(Debug, Clone, PartialEq, Eq)]
pub struct FileMove {
    pub from: String,
    pub to: String,
}

impl View for FileMove {
    type V = (Seq<char>, Seq<char>);

    open spec fn view(&self) -> (Seq<char>, Seq<char>) {
        (self.from@, self.to@)
    }
}

/// Where an entry of `source` goes: the same base name inside `dest`.
pub open spec fn move_of(source: Seq<char>, dest: Seq<char>, e: Entry) -> (Seq<char>, Seq<char>) {
    (joined(source, e.name@), joined(dest, e.name@))
}

/// The moves owed for a listing of `source`, in listing order: one for each
/// eligible entry, and none for any other.
pub open spec fn planned(
    source: Seq<char>,
    dest: Seq<char>,
    min_age: u32,
    now: i64,
    entries: Seq<Entry>,
) -> Seq<(Seq<char>, Seq<char>)>
    decreases entries.len(),
{
    if entries.len() == 0 {
        Seq::empty()
    } else {
        let before = planned(source, dest, min_age, now, entries.drop_last());
        if eligible(entries.last(), min_age, now) {
            before.push(move_of(source, dest, entries.last()))
        } else {
            before
        }
    }
}

/// The view of each move of a sequence.
pub open spec fn moves_view(moves: Seq<FileMove>) -> Seq<(Seq<char>, Seq<char>)> {
    moves.map_values(|m: FileMove| m@)
}

/// Lists the moves for the entries of `source` that are old enough, each to
/// the same base name inside `dest`. Only the entries given are considered:
/// nothing below them is looked at.
pub fn plan_moves(
    source: &String,
    dest: &String,
    min_age: u32,
    time: i64,
    entries: &Vec<Entry>,
) -> (r: Vec<FileMove>)
    ensures
        moves_view(r@) == planned(source@, dest@, min_age, time, entries@),
{
    let mut r: Vec<FileMove> = Vec::new();
    let mut i: usize = 0;
    while i < entries.len()
        invariant
            i <= entries.len(),
            moves_view(r@) == planned(source@, dest@, min_age, time, entries@.subrange(0, i as int)),
        decreases entries.len() - i,
    {
        let e = &entries[i];
        let ghost prefix = entries@.subrange(0, i + 1);
        assert(prefix.drop_last() == entries@.subrange(0, i as int));
        assert(prefix.last() == *e);
        if check_valid_entry(e, min_age, time) {
            let m = FileMove { from: join_path(source, &e.name), to: join_path(dest, &e.name) };
            assert(moves_view(r@.push(m)) == moves_view(r@).push(m@));
            r.push(m);
        }
        i = i + 1;
    }
    assert(entries@.subrange(0, entries.len() as int) == entries@);
    r
}

/// Every planned move is the move of an eligible listed entry, and every
/// eligible listed entry has its move planned.
pub proof fn planned_moves_are_exactly_eligible_entries(
    source: Seq<char>,
    dest: Seq<char>,
    min_age: u32,
    now: i64,
    entries: Seq<Entry>,
)
    ensures
        forall|k: int|
            0 <= k < planned(source, dest, min_age, now, entries).len() ==> exists|j: int|
                0 <= j < entries.len() && eligible(entries[j], min_age, now)
                && #[trigger] planned(source, dest, min_age, now, entries)[k] == move_of(
                    source,
                    dest,
                    entries[j],
                ),
        forall|j: int|
            0 <= j < entries.len() && eligible(#[trigger] entries[j], min_age, now) ==> planned(
                source,
                dest,
                min_age,
                now,
                entries,
            ).contains(move_of(source, dest, entries[j])),
    decreases entries.len(),
{
    if entries.len() > 0 {
        let rest = entries.drop_last();
        planned_moves_are_exactly_eligible_entries(source, dest, min_age, now, rest);
        let before = planned(source, dest, min_age, now, rest);
        let all = planned(source, dest, min_age, now, entries);
        assert forall|k: int| 0 <= k < all.len() implies exists|j: int|
            0 <= j < entries.len() && eligible(entries[j], min_age, now) && #[trigger] all[k]
                == move_of(source, dest, entries[j]) by {
            if k < before.len() {
                assert(all[k] == before[k]);
                let j = choose|j: int|
                    0 <= j < rest.len() && eligible(rest[j], min_age, now) && before[k]
                        == move_of(source, dest, rest[j]);
                assert(entries[j] == rest[j]);
            } else {
                assert(entries[entries.len() - 1] == entries.last());
            }
        }
        assert forall|j: int|
            0 <= j < entries.len() && eligible(#[trigger] entries[j], min_age, now) implies all.contains(
            move_of(source, dest, entries[j]),
        ) by {
            if j < rest.len() {
                assert(rest[j] == entries[j]);
                let k = choose|k: int|
                    0 <= k < before.len() && before[k] == move_of(source, dest, rest[j]);
                assert(all[k] == before[k]);
            } else {
                assert(all[all.len() - 1] == move_of(source, dest, entries.last()));
            }
        }
    }
}

/// With a threshold of 0, every regular file of the listing whose metadata
/// was read is moved, provided its modification time is not in the future.
pub proof fn zero_threshold_moves_every_file(
    source: Seq<char>,
    dest: Seq<char>,
    now: i64,
    entries: Seq<Entry>,
)
    requires
        forall|j: int|
            0 <= j < entries.len() && (#[trigger] entries[j]).modified is Some
                ==> entries[j].modified->0 <= now,
    ensures
        forall|j: int|
            0 <= j < entries.len() && (#[trigger] entries[j]).is_file && entries[j].modified is Some
                ==> planned(source, dest, 0, now, entries).contains(move_of(source, dest, entries[j])),
{
    planned_moves_are_exactly_eligible_entries(source, dest, 0, now, entries);
    assert forall|j: int|
        0 <= j < entries.len() && (#[trigger] entries[j]).is_file && entries[j].modified is Some
            implies planned(source, dest, 0, now, entries).contains(
        move_of(source, dest, entries[j]),
    ) by {
        assert(eligible(entries[j], 0, now));
    }
}

/// `mv` is the move of a regular file of the listing.
pub open spec fn moves_a_listed_file(
    source: Seq<char>,
    dest: Seq<char>,
    entries: Seq<Entry>,
    mv: (Seq<char>, Seq<char>),
) -> bool {
    exists|j: int| 0 <= j < entries.len() && entries[j].is_file && mv == move_of(source, dest, entries[j])
}

/// An entry that is not a regular file is never eligible, whatever its age
/// and the threshold, and so every planned move is that of a regular file.
pub proof fn non_files_never_move(
    source: Seq<char>,
    dest: Seq<char>,
    min_age: u32,
    now: i64,
    entries: Seq<Entry>,
)
    ensures
        forall|e: Entry| !e.is_file ==> !#[trigger] eligible(e, min_age, now),
        forall|k: int|
            0 <= k < planned(source, dest, min_age, now, entries).len() ==> moves_a_listed_file(
                source,
                dest,
                entries,
                #[trigger] planned(source, dest, min_age, now, entries)[k],
            ),
{
    planned_moves_are_exactly_eligible_entries(source, dest, min_age, now, entries);
    let all = planned(source, dest, min_age, now, entries);
    assert forall|k: int| 0 <= k < all.len() implies moves_a_listed_file(
        source,
        dest,
        entries,
        #[trigger] all[k],
    ) by {
        let j = choose|j: int|
            0 <= j < entries.len() && eligible(entries[j], min_age, now) && all[k] == move_of(
                source,
                dest,
                entries[j],
            );
        assert(entries[j].is_file);
    }
}

/// Every planned move takes a file named in the listing of `source` itself,
/// at `source` joined with that name, to the same name inside `dest`: nothing
/// below the listed entries is ever moved.
pub proof fn moves_come_from_listed_entries(
    source: Seq<char>,
    dest: Seq<char>,
    min_age: u32,
    now: i64,
    entries: Seq<Entry>,
)
    ensures
        forall|k: int|
            0 <= k < planned(source, dest, min_age, now, entries).len() ==> exists|j: int|
                0 <= j < entries.len() && (#[trigger] planned(source, dest, min_age, now, entries)[k]).0
                    == joined(source, entries[j].name@)
                && planned(source, dest, min_age, now, entries)[k].1 == joined(dest, entries[j].name@),
{
    planned_moves_are_exactly_eligible_entries(source, dest, min_age, now, entries);
}

/// A base name: not empty, and free of separators.
pub open spec fn is_base_name(name: Seq<char>) -> bool {
    name.len() > 0 && !name.contains('/')
}

/// A moved file keeps its base name exactly: its destination ends with a
/// separator followed by that name, right after the destination directory.
pub proof fn move_keeps_base_name(source: Seq<char>, dest: Seq<char>, e: Entry)
    requires
        is_base_name(e.name@),
        dest.len() > 0,
    ensures
        move_of(source, dest, e).1.len() > e.name@.len(),
        move_of(source, dest, e).1.subrange(
            move_of(source, dest, e).1.len() - e.name@.len(),
            move_of(source, dest, e).1.len() as int,
        ) == e.name@,
        move_of(source, dest, e).1[move_of(source, dest, e).1.len() - e.name@.len() - 1] == '/',
        dest.last() != '/' ==> move_of(source, dest, e).1 == dest + seq!['/'] + e.name@,
{
    let to = move_of(source, dest, e).1;
    let n = e.name@;
    assert(to.subrange(to.len() - n.len(), to.len() as int) =~= n);
}

/// Different names inside one directory give different paths.
pub proof fn joined_is_injective(dir: Seq<char>, a: Seq<char>, b: Seq<char>)
    requires
        joined(dir, a) == joined(dir, b),
    ensures
        a == b,
{
    let ja = joined(dir, a);
    let lead: int = ja.len() - a.len();
    assert(a =~= ja.subrange(lead, ja.len() as int));
    assert(b =~= joined(dir, b).subrange(lead, ja.len() as int));
}

/// The names of a listing are distinct.
pub open spec fn distinct_names(entries: Seq<Entry>) -> bool {
    forall|i: int, j: int| 0 <= i < j < entries.len() ==> entries[i].name@ != entries[j].name@
}

/// Filtering keeps only elements of the original sequence.
proof fn filter_keeps_only_members(entries: Seq<Entry>, pred: spec_fn(Entry) -> bool)
    ensures
        forall|i: int|
            0 <= i < entries.filter(pred).len() ==> entries.contains(
                #[trigger] entries.filter(pred)[i],
            ),
    decreases entries.len(),
{
    reveal(Seq::filter);
    if entries.len() > 0 {
        let rest = entries.drop_last();
        filter_keeps_only_members(rest, pred);
        let out = entries.filter(pred);
        assert forall|i: int| 0 <= i < out.len() implies entries.contains(#[trigger] out[i]) by {
            if i < rest.filter(pred).len() {
                assert(out[i] == rest.filter(pred)[i]);
                let k = choose|k: int| 0 <= k < rest.len() && rest[k] == out[i];
                assert(entries[k] == rest[k]);
            } else {
                assert(out[i] == entries[entries.len() - 1]);
            }
        }
    }
}

/// What is left in a watched directory once the planned moves are done.
pub open spec fn left_behind(min_age: u32, now: i64, entries: Seq<Entry>) -> Seq<Entry> {
    entries.filter(|e: Entry| !eligible(e, min_age, now))
}

/// Once the planned moves are done, a new run with the same reference time
/// has nothing to do, and a run at any reference time never plans a move
/// from a path that was already moved away.
pub proof fn moved_files_are_not_moved_again(
    source: Seq<char>,
    dest: Seq<char>,
    min_age: u32,
    now: i64,
    later: i64,
    entries: Seq<Entry>,
)
    requires
        distinct_names(entries),
    ensures
        planned(source, dest, min_age, now, left_behind(min_age, now, entries)).len() == 0,
        forall|k: int, m: int|
            0 <= k < planned(source, dest, min_age, later, left_behind(min_age, now, entries)).len()
                && 0 <= m < planned(source, dest, min_age, now, entries).len() ==> (#[trigger] planned(
                source,
                dest,
                min_age,
                later,
                left_behind(min_age, now, entries),
            )[k]).0 != (#[trigger] planned(source, dest, min_age, now, entries)[m]).0,
{
    let rest = left_behind(min_age, now, entries);
    let pred = |e: Entry| !eligible(e, min_age, now);
    broadcast use Seq::lemma_filter_pred, Seq::lemma_filter_contains;
    filter_keeps_only_members(entries, pred);
    planned_moves_are_exactly_eligible_entries(source, dest, min_age, now, rest);
    planned_moves_are_exactly_eligible_entries(source, dest, min_age, later, rest);
    planned_moves_are_exactly_eligible_entries(source, dest, min_age, now, entries);
    if planned(source, dest, min_age, now, rest).len() > 0 {
        let j = choose|j: int|
            0 <= j < rest.len() && eligible(rest[j], min_age, now) && planned(
                source,
                dest,
                min_age,
                now,
                rest,
            )[0] == move_of(source, dest, rest[j]);
        assert(pred(rest[j]));
    }
    assert forall|k: int, m: int|
        0 <= k < planned(source, dest, min_age, later, rest).len() && 0 <= m < planned(
            source,
            dest,
            min_age,
            now,
            entries,
        ).len() implies (#[trigger] planned(source, dest, min_age, later, rest)[k]).0 != (
    #[trigger] planned(source, dest, min_age, now, entries)[m]).0 by {
        let j1 = choose|j: int|
            0 <= j < rest.len() && eligible(rest[j], min_age, later) && planned(
                source,
                dest,
                min_age,
                later,
                rest,
            )[k] == move_of(source, dest, rest[j]);
        let j2 = choose|j: int|
            0 <= j < entries.len() && eligible(entries[j], min_age, now) && planned(
                source,
                dest,
                min_age,
                now,
                entries,
            )[m] == move_of(source, dest, entries[j]);
        assert(pred(rest[j1]));
        assert(entries.contains(rest[j1]));
        let i1 = choose|i: int| 0 <= i < entries.len() && entries[i] == rest[j1];
        if planned(source, dest, min_age, later, rest)[k].0 == planned(
            source,
            dest,
            min_age,
            now,
            entries,
        )[m].0 {
            joined_is_injective(source, rest[j1].name@, entries[j2].name@);
            assert(i1 == j2);
        }
    }
}

} // verus!
