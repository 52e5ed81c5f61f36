//! Walking `sysfs` listings: which entries are kept, in which order,
//! and where the errors met on the way go.
use vstd::prelude::*;

use crate::error::Error;
use crate::names::EntryKind;

verus! {

/// One entry of a directory listing: its file name and, when the entry
/// is of the kind the walk looks for, what was read from it.
pub struct Entry<R> {
    pub name: Vec<u8>,
    pub readings: Option<R>,
}

/// A directory listing: the listing itself may fail, and so may each entry.
pub type Listing<R> = Result<Vec<Result<Entry<R>, Error>>, Error>;

/// Every entry of `kind` in `entries` carries its readings.
pub open spec fn entries_read<R>(kind: EntryKind, entries: Seq<Result<Entry<R>, Error>>) -> bool {
    forall|i: int|
        0 <= i < entries.len() && #[trigger] entries[i] is Ok && kind.spec_matches(
            entries[i]->Ok_0.name@,
        ) ==> entries[i]->Ok_0.readings is Some
}

/// Every entry of `kind` in `listing` carries its readings.
pub open spec fn listing_read<R>(kind: EntryKind, listing: Listing<R>) -> bool {
    listing matches Ok(entries) ==> entries_read(kind, entries@)
}

/// The readings of the entries of `kind`, in listing order, with each
/// failed entry in its place as an error.
pub open spec fn spec_select_entries<R>(
    kind: EntryKind,
    entries: Seq<Result<Entry<R>, Error>>,
) -> Seq<Result<R, Error>>
    decreases entries.len(),
{
    if entries.len() == 0 {
        Seq::empty()
    } else {
        let head: Seq<Result<R, Error>> = match entries[0] {
            Err(e) => seq![Err(e)],
            Ok(entry) => if kind.spec_matches(entry.name@) {
                seq![Ok(entry.readings->0)]
            } else {
                Seq::empty()
            },
        };
        head + spec_select_entries(kind, entries.drop_first())
    }
}

/// What a walk over `listing` yields: a failed listing yields its error
/// alone, otherwise the selected entries.
pub open spec fn spec_select<R>(kind: EntryKind, listing: Listing<R>) -> Seq<Result<R, Error>> {
    match listing {
        Err(e) => seq![Err(e)],
        Ok(entries) => spec_select_entries(kind, entries@),
    }
}

/// Keeps the entries of `kind` in `listing` and hands out their readings.
pub fn select<R>(kind: EntryKind, listing: Listing<R>) -> (r: Vec<Result<R, Error>>)
    requires
        listing_read(kind, listing),
    ensures
        r@ == spec_select(kind, listing),
{
    match listing {
        Err(e) => {
            let mut r: Vec<Result<R, Error>> = Vec::new();
            r.push(Err(e));
            r
        },
        Ok(entries) => select_entries(kind, entries),
    }
}

fn select_entries<R>(kind: EntryKind, entries: Vec<Result<Entry<R>, Error>>) -> (r: Vec<
    Result<R, Error>,
>)
    requires
        entries_read(kind, entries@),
    ensures
        r@ == spec_select_entries(kind, entries@),
{
    let ghost all = entries@;
    let mut rest = entries;
    let mut out: Vec<Result<R, Error>> = Vec::new();
    while rest.len() > 0
        invariant
            entries_read(kind, rest@),
            out@ + spec_select_entries(kind, rest@) == spec_select_entries(kind, all),
        decreases rest.len(),
    {
        let ghost before = rest@;
        let item = rest.remove(0);
        assert(rest@ =~= before.drop_first());
        assert(entries_read(kind, rest@)) by {
            assert forall|i: int|
                0 <= i < rest@.len() && #[trigger] rest@[i] is Ok && kind.spec_matches(
                    rest@[i]->Ok_0.name@,
                ) implies rest@[i]->Ok_0.readings is Some by {
                assert(rest@[i] == before[i + 1]);
            }
        }
        let ghost out_before = out@;
        match item {
            Err(e) => {
                out.push(Err(e));
            },
            Ok(entry) => {
                if kind.matches(entry.name.as_slice()) {
                    assert(before[0] is Ok);
                    match entry.readings {
                        Some(readings) => {
                            out.push(Ok(readings));
                        },
                        None => {},
                    }
                }
            },
        }
        assert(out_before + spec_select_entries(kind, before) =~= out@ + spec_select_entries(
            kind,
            rest@,
        ));
    }
    assert(out@ + spec_select_entries(kind, rest@) =~= out@);
    out
}

/// The readings of the entries of `kind` in each of `listings`, one
/// listing after the other; a directory that could not be reached yields
/// its error in its place.
pub open spec fn spec_flatten_select<R>(
    kind: EntryKind,
    listings: Seq<Result<Listing<R>, Error>>,
) -> Seq<Result<R, Error>>
    decreases listings.len(),
{
    if listings.len() == 0 {
        Seq::empty()
    } else {
        let head = match listings[0] {
            Err(e) => seq![Err(e)],
            Ok(listing) => spec_select(kind, listing),
        };
        head + spec_flatten_select(kind, listings.drop_first())
    }
}

/// The inner listings of a two-level walk all carry their readings.
pub open spec fn nested_read<R>(dir_kind: EntryKind, kind: EntryKind, outer: Listing<Listing<R>>) -> bool {
    &&& listing_read(dir_kind, outer)
    &&& forall|i: int|
        0 <= i < spec_select(dir_kind, outer).len() && #[trigger] spec_select(
            dir_kind,
            outer,
        )[i] is Ok ==> listing_read(kind, spec_select(dir_kind, outer)[i]->Ok_0)
}

/// What a two-level walk yields, as a stream of `try_flatten` does it.
pub open spec fn spec_walk<R>(dir_kind: EntryKind, kind: EntryKind, outer: Listing<Listing<R>>) -> Seq<
    Result<R, Error>,
> {
    spec_flatten_select(kind, spec_select(dir_kind, outer))
}

/// Walks the directories of `dir_kind` in `outer` and, in each, the
/// entries of `kind`; errors of either level stay in place.
pub fn walk<R>(dir_kind: EntryKind, kind: EntryKind, outer: Listing<Listing<R>>) -> (r: Vec<
    Result<R, Error>,
>)
    requires
        nested_read(dir_kind, kind, outer),
    ensures
        r@ == spec_walk(dir_kind, kind, outer),
{
    let dirs = select(dir_kind, outer);
    let ghost all = dirs@;
    let mut rest = dirs;
    let mut out: Vec<Result<R, Error>> = Vec::new();
    while rest.len() > 0
        invariant
            forall|i: int|
                0 <= i < rest@.len() && #[trigger] rest@[i] is Ok ==> listing_read(
                    kind,
                    rest@[i]->Ok_0,
                ),
            out@ + spec_flatten_select(kind, rest@) == spec_flatten_select(kind, all),
        decreases rest.len(),
    {
        let ghost before = rest@;
        let item = rest.remove(0);
        assert(rest@ =~= before.drop_first());
        assert forall|i: int|
            0 <= i < rest@.len() && #[trigger] rest@[i] is Ok implies listing_read(
            kind,
            rest@[i]->Ok_0,
        ) by {
            assert(rest@[i] == before[i + 1]);
        }
        let ghost out_before = out@;
        match item {
            Err(e) => {
                out.push(Err(e));
            },
            Ok(listing) => {
                assert(before[0] is Ok);
                let mut inner = select(kind, listing);
                out.append(&mut inner);
            },
        }
        assert(out_before + spec_flatten_select(kind, before) =~= out@ + spec_flatten_select(
            kind,
            rest@,
        ));
    }
    assert(out@ + spec_flatten_select(kind, rest@) =~= out@);
    out
}

/// Selection works entry by entry and keeps the listing's order: the
/// selection of two runs of entries, one after the other, is the
/// selection of the first run followed by that of the second; a failed
/// entry gives its error, an entry of `kind` gives its readings, and any
/// other entry gives nothing.
pub proof fn lemma_select_entries_laws<R>(
    kind: EntryKind,
    a: Seq<Result<Entry<R>, Error>>,
    b: Seq<Result<Entry<R>, Error>>,
)
    ensures
        spec_select_entries(kind, a + b) == spec_select_entries(kind, a) + spec_select_entries(
            kind,
            b,
        ),
        spec_select_entries(kind, Seq::<Result<Entry<R>, Error>>::empty()) =~= Seq::<
            Result<R, Error>,
        >::empty(),
        forall|e: Error| #[trigger]
            spec_select_entries(kind, seq![Err::<Entry<R>, Error>(e)]) =~= seq![Err::<R, Error>(e)],
        forall|entry: Entry<R>|
            kind.spec_matches(#[trigger] entry.name@) && entry.readings is Some ==> spec_select_entries(
                kind,
                seq![Ok::<Entry<R>, Error>(entry)],
            ) =~= seq![Ok::<R, Error>(entry.readings->0)],
        forall|entry: Entry<R>|
            !kind.spec_matches(#[trigger] entry.name@) ==> spec_select_entries(
                kind,
                seq![Ok::<Entry<R>, Error>(entry)],
            ) =~= Seq::<Result<R, Error>>::empty(),
    decreases a.len(),
{
    if a.len() > 0 {
        assert((a + b).drop_first() =~= a.drop_first() + b);
        assert((a + b)[0] == a[0]);
        lemma_select_entries_laws(kind, a.drop_first(), b);
    } else {
        assert(a + b =~= b);
    }
    assert forall|e: Error| #[trigger]
        spec_select_entries(kind, seq![Err::<Entry<R>, Error>(e)]) =~= seq![Err::<R, Error>(e)] by {
        let one = seq![Err::<Entry<R>, Error>(e)];
        assert(one.drop_first() =~= Seq::<Result<Entry<R>, Error>>::empty());
        assert(spec_select_entries(kind, one.drop_first()) =~= Seq::<Result<R, Error>>::empty());
        assert(one[0] == Err::<Entry<R>, Error>(e));
    }
    assert forall|entry: Entry<R>|
        kind.spec_matches(#[trigger] entry.name@) && entry.readings is Some implies spec_select_entries(
            kind,
            seq![Ok::<Entry<R>, Error>(entry)],
        ) =~= seq![Ok::<R, Error>(entry.readings->0)] by {
        let one = seq![Ok::<Entry<R>, Error>(entry)];
        assert(one.drop_first() =~= Seq::<Result<Entry<R>, Error>>::empty());
        assert(spec_select_entries(kind, one.drop_first()) =~= Seq::<Result<R, Error>>::empty());
        assert(one[0] == Ok::<Entry<R>, Error>(entry));
    }
    assert forall|entry: Entry<R>|
        !kind.spec_matches(#[trigger] entry.name@) implies spec_select_entries(
            kind,
            seq![Ok::<Entry<R>, Error>(entry)],
        ) =~= Seq::<Result<R, Error>>::empty() by {
        let one = seq![Ok::<Entry<R>, Error>(entry)];
        assert(one.drop_first() =~= Seq::<Result<Entry<R>, Error>>::empty());
        assert(spec_select_entries(kind, one.drop_first()) =~= Seq::<Result<R, Error>>::empty());
        assert(one[0] == Ok::<Entry<R>, Error>(entry));
    }
}

/// A listing that could not be read yields its error and nothing else.
pub proof fn lemma_failed_listing<R>(kind: EntryKind, e: Error)
    ensures
        spec_select(kind, Err::<Vec<Result<Entry<R>, Error>>, Error>(e)) =~= seq![Err::<R, Error>(e)],
{
}

} // verus!
