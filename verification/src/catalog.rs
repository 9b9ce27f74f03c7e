//! Metadata files: which ones to read, and how what was read is listed.

use vstd::prelude::*;

use crate::path::{self, FilePath};

verus! {

/// What came of reading a metadata file.
#[derive(Debug, Clone, PartialEq, Eq)]
pub enum FileRead<T> {
    /// There is no such file.
    Missing,
    /// The file could not be read, with the reason.
    Unreadable(String),
    /// The file does not hold metadata, with the reason.
    Malformed(String),
    /// The metadata in the file.
    Found(T),
}

/// A file to write, with all that it is to hold.
#[derive(Debug, Clone, PartialEq, Eq)]
pub struct FileWrite {
    pub path: FilePath,
    pub data: String,
}

/// Metadata that bears the time when it was made.
pub trait Dated: Sized {
    /// Creation time in Unix ms.
    spec fn date(&self) -> u64;

    /// Creation time in Unix ms.
    fn created(&self) -> (date: u64)
        ensures
            date == self.date(),
    ;
}

/// The elements of a given date, in their order.
pub open spec fn of_date<T: Dated>(items: Seq<T>, date: u64) -> Seq<T> {
    items.filter(|item: T| item.date() == date)
}

/// Whether the dates never decrease.
pub open spec fn in_date_order<T: Dated>(items: Seq<T>) -> bool {
    forall|i: int, j: int|
        0 <= i <= j < items.len() ==> (#[trigger] items[i]).date() <= (#[trigger] items[j]).date()
}

/// Whether `listed` holds the elements of `items` by date, those of one date in the order in which they
/// stand in `items`.
pub open spec fn is_listing<T: Dated>(items: Seq<T>, listed: Seq<T>) -> bool {
    &&& in_date_order(listed)
    &&& forall|date: u64| #[trigger] of_date(listed, date) == of_date(items, date)
}

/// The metadata among the results of reading files, in their order. `Ok(None)` is a file that could be read
/// but does not hold metadata.
pub open spec fn found_in<T>(reads: Seq<Result<Option<T>, String>>) -> Seq<T>
    decreases reads.len(),
{
    if reads.len() == 0 {
        Seq::empty()
    } else {
        match reads.last() {
            Ok(Some(item)) => found_in(reads.drop_last()).push(item),
            _ => found_in(reads.drop_last()),
        }
    }
}

/// The reason of the first file that could not be read.
pub open spec fn first_failure<T>(reads: Seq<Result<Option<T>, String>>) -> Option<String>
    decreases reads.len(),
{
    if reads.len() == 0 {
        None
    } else {
        match first_failure(reads.drop_last()) {
            Some(reason) => Some(reason),
            None => match reads.last() {
                Err(reason) => Some(reason),
                Ok(_) => None,
            },
        }
    }
}

/// What listing files gives: the reason of the first that could not be read, or else all metadata found.
pub open spec fn lists<T: Dated>(
    reads: Seq<Result<Option<T>, String>>,
    listing: Result<Seq<T>, String>,
) -> bool {
    match listing {
        Ok(listed) => first_failure(reads) is None && is_listing(found_in(reads), listed),
        Err(reason) => first_failure(reads) == Some(reason),
    }
}

/// A failure among the first files is the first failure among all of them.
proof fn lemma_failure_stays<T>(reads: Seq<Result<Option<T>, String>>, n: int)
    requires
        0 <= n <= reads.len(),
        first_failure(reads.take(n)) is Some,
    ensures
        first_failure(reads) == first_failure(reads.take(n)),
    decreases reads.len(),
{
    if n < reads.len() {
        assert(reads.drop_last().take(n) =~= reads.take(n));
        lemma_failure_stays(reads.drop_last(), n);
    } else {
        assert(reads.take(n) =~= reads);
    }
}

/// Inserting an element behind all that are not later, and before all that are later, keeps a listing a
/// listing of one element more.
proof fn lemma_insert<T: Dated>(items: Seq<T>, listed: Seq<T>, item: T, at: int)
    requires
        is_listing(items, listed),
        0 <= at <= listed.len(),
        forall|i: int| 0 <= i < at ==> (#[trigger] listed[i]).date() <= item.date(),
        forall|i: int| at <= i < listed.len() ==> (#[trigger] listed[i]).date() > item.date(),
    ensures
        is_listing(items.push(item), listed.insert(at, item)),
{
    let before = listed.take(at);
    let behind = listed.skip(at);
    let after = listed.insert(at, item);
    assert(listed =~= before + behind);
    assert(after =~= before.push(item) + behind);
    assert forall|date: u64| #[trigger] of_date(after, date) == of_date(items.push(item), date) by {
        let same = |x: T| x.date() == date;
        Seq::filter_distributes_over_add(before, behind, same);
        Seq::filter_distributes_over_add(before.push(item), behind, same);
        assert(before.push(item).filter(same) == if same(item) {
            before.filter(same).push(item)
        } else {
            before.filter(same)
        }) by {
            reveal(Seq::filter);
            assert(before.push(item).drop_last() =~= before);
        }
        assert(items.push(item).filter(same) == if same(item) {
            items.filter(same).push(item)
        } else {
            items.filter(same)
        }) by {
            reveal(Seq::filter);
            assert(items.push(item).drop_last() =~= items);
        }
        assert(of_date(listed, date) == of_date(items, date));
        if same(item) {
            behind.filter_lemma(same);
            if behind.filter(same).len() > 0 {
                let late = behind.filter(same)[0];
                assert(same(late));
                behind.lemma_filter_contains_rev(same, late);
                let i = behind.index_of(late);
                assert(listed[at + i] == late);
                assert(false);
            }
            assert(behind.filter(same) =~= Seq::empty());
            assert(of_date(after, date) =~= of_date(items.push(item), date));
        } else {
            assert(of_date(after, date) =~= of_date(items.push(item), date));
        }
    }
    assert forall|i: int, j: int| 0 <= i <= j < after.len() implies (#[trigger] after[i]).date() <= (
    #[trigger] after[j]).date() by {
        let a = if i < at {
            i
        } else {
            i - 1
        };
        let b = if j < at {
            j
        } else {
            j - 1
        };
        if i != at && j != at {
            assert(listed[a].date() <= listed[b].date());
        }
    }
}

/// A filter lets as much of what it wants through as there is.
proof fn lemma_filter_count<T>(s: Seq<T>, wanted: spec_fn(T) -> bool, x: T)
    requires
        wanted(x),
    ensures
        s.filter(wanted).to_multiset().count(x) == s.to_multiset().count(x),
    decreases s.len(),
{
    broadcast use vstd::seq_lib::group_to_multiset_ensures;

    reveal(Seq::filter);
    if s.len() > 0 {
        let rest = s.drop_last();
        lemma_filter_count(rest, wanted, x);
        assert(s =~= rest.push(s.last()));
    }
}

/// A listing holds all that is listed, each as often as it is there, and nothing else.
pub proof fn lemma_listing_is_complete<T: Dated>(items: Seq<T>, listed: Seq<T>)
    requires
        is_listing(items, listed),
    ensures
        listed.to_multiset() == items.to_multiset(),
{
    assert forall|x: T| listed.to_multiset().count(x) == items.to_multiset().count(x) by {
        let same = |item: T| item.date() == x.date();
        lemma_filter_count(listed, same, x);
        lemma_filter_count(items, same, x);
        assert(of_date(listed, x.date()) == of_date(items, x.date()));
    }
    assert(listed.to_multiset() =~= items.to_multiset());
}

/// Lists metadata by creation time; of those made at the same time, the one that was read first comes
/// first. A file that does not hold metadata is left out; the first one that could not be read is an error.
pub fn list_by_date<T: Dated>(reads: Vec<Result<Option<T>, String>>) -> (listing: Result<
    Vec<T>,
    String,
>)
    ensures
        match listing {
            Ok(listed) => lists(reads@, Ok(listed@)),
            Err(reason) => lists(reads@, Err(reason)),
        },
{
    let mut listed: Vec<T> = Vec::new();
    let ghost all = reads@;
    assert(all.take(0) =~= Seq::empty());
    assert(is_listing(found_in(all.take(0)), listed@));
    for read in it: reads
        invariant
            it.seq() == all,
            first_failure(all.take(it.index() as int)) is None,
            is_listing(found_in(all.take(it.index() as int)), listed@),
    {
        let ghost done = found_in(all.take(it.index() as int));
        proof {
            assert(all.take(it.index() + 1).drop_last() =~= all.take(it.index() as int));
            assert(all.take(it.index() + 1).last() == read);
        }
        match read {
            Err(reason) => {
                proof {
                    lemma_failure_stays(all, it.index() + 1);
                }
                return Err(reason);
            },
            Ok(None) => {},
            Ok(Some(item)) => {
                let mut at: usize = listed.len();
                while at > 0 && listed[at - 1].created() > item.created()
                    invariant
                        at <= listed@.len(),
                        forall|i: int|
                            at <= i < listed@.len() ==> (#[trigger] listed@[i]).date() > item.date(),
                    ensures
                        at <= listed@.len(),
                        forall|i: int|
                            at <= i < listed@.len() ==> (#[trigger] listed@[i]).date() > item.date(),
                        at > 0 ==> listed@[at - 1].date() <= item.date(),
                    decreases at,
                {
                    at -= 1;
                }
                proof {
                    assert forall|i: int| 0 <= i < at implies (#[trigger] listed@[i]).date()
                        <= item.date() by {
                        assert(listed@[i].date() <= listed@[at - 1].date());
                    }
                    lemma_insert(done, listed@, item, at as int);
                }
                listed.insert(at, item);
            },
        }
    }
    assert(all.take(all.len() as int) =~= all);
    Ok(listed)
}

/// Whether a file name has the extension of metadata files. A name that is nothing but the extension has
/// none.
pub open spec fn has_json_extension(name: Seq<u8>) -> bool {
    let extension = path::utf8(".json"@);
    name.len() > extension.len() && name.skip(name.len() - extension.len()) == extension
}

/// Tells whether a directory entry with this file name is a metadata file.
pub fn is_metadata_file(name: &[u8]) -> (is: bool)
    ensures
        is == has_json_extension(name@),
{
    let extension = ".json".as_bytes();
    name.len() > extension.len() && path::ends_in(name, extension)
}

/// The metadata found in files is that of each file that holds some, in the order of the files: what is
/// found in two runs of files is what is found in the first, followed by what is found in the second.
pub proof fn lemma_found_in_order<T>(
    reads: Seq<Result<Option<T>, String>>,
    more: Seq<Result<Option<T>, String>>,
    item: T,
    reason: String,
)
    ensures
        found_in(reads + more) == found_in(reads) + found_in(more),
        found_in(seq![Ok::<Option<T>, String>(Some(item))]) == seq![item],
        found_in(seq![Ok::<Option<T>, String>(None)]) == Seq::<T>::empty(),
        found_in(seq![Err::<Option<T>, String>(reason)]) == Seq::<T>::empty(),
    decreases more.len(),
{
    reveal_with_fuel(found_in, 2);
    assert(seq![Ok::<Option<T>, String>(Some(item))].drop_last() =~= Seq::empty());
    assert(seq![Ok::<Option<T>, String>(None)].drop_last() =~= Seq::empty());
    assert(seq![Err::<Option<T>, String>(reason)].drop_last() =~= Seq::empty());
    assert(found_in(seq![Ok::<Option<T>, String>(Some(item))]) =~= seq![item]);
    if more.len() == 0 {
        assert(reads + more =~= reads);
        assert(found_in(reads) + found_in(more) =~= found_in(reads));
    } else {
        lemma_found_in_order(reads, more.drop_last(), item, reason);
        assert((reads + more).drop_last() =~= reads + more.drop_last());
        assert(found_in(reads + more) =~= found_in(reads) + found_in(more));
    }
}

/// Listing fails exactly where a file could not be read, and with the reason of the first such file.
pub proof fn lemma_first_failure_is_reported<T: Dated>(
    reads: Vec<Result<Option<T>, String>>,
    listing: Result<Vec<T>, String>,
)
    requires
        call_ensures(list_by_date::<T>, (reads,), listing),
    ensures
        listing is Ok <==> forall|i: int| 0 <= i < reads@.len() ==> #[trigger] reads@[i] is Ok,
        listing matches Err(reason) ==> exists|i: int|
            {
                &&& 0 <= i < reads@.len()
                &&& #[trigger] reads@[i] == Err::<Option<T>, String>(reason)
                &&& forall|j: int| 0 <= j < i ==> #[trigger] reads@[j] is Ok
            },
{
    lemma_first_failure(reads@);
}

/// A failure is the reason of the first file that could not be read, and there is none where all could.
pub proof fn lemma_first_failure<T>(reads: Seq<Result<Option<T>, String>>)
    ensures
        match first_failure(reads) {
            None => forall|i: int| 0 <= i < reads.len() ==> #[trigger] reads[i] is Ok,
            Some(reason) => exists|i: int|
                {
                    &&& 0 <= i < reads.len()
                    &&& #[trigger] reads[i] == Err::<Option<T>, String>(reason)
                    &&& forall|j: int| 0 <= j < i ==> #[trigger] reads[j] is Ok
                },
        },
    decreases reads.len(),
{
    if reads.len() > 0 {
        let rest = reads.drop_last();
        lemma_first_failure(rest);
        assert forall|i: int| 0 <= i < rest.len() implies #[trigger] rest[i] == reads[i] by {}
        assert forall|i: int| 0 <= i < rest.len() implies #[trigger] reads[i] == rest[i] by {}
        match first_failure(rest) {
            Some(reason) => {
                let i = choose|i: int|
                    {
                        &&& 0 <= i < rest.len()
                        &&& #[trigger] rest[i] == Err::<Option<T>, String>(reason)
                        &&& forall|j: int| 0 <= j < i ==> #[trigger] rest[j] is Ok
                    };
                assert(reads[i] == Err::<Option<T>, String>(reason));
            },
            None => {
                assert(reads[reads.len() - 1] == reads.last());
            },
        }
    }
}

proof fn lemma_of_date<T: Dated>(items: Seq<T>, date: u64, same: spec_fn(T) -> bool)
    requires
        forall|item: T| #[trigger] same(item) <==> item.date() == date,
    ensures
        of_date(items, date) == items.filter(same),
    decreases items.len(),
{
    reveal(Seq::filter);
    if items.len() > 0 {
        lemma_of_date(items.drop_last(), date, same);
    }
}

/// What is listed is all metadata that was found, each as often as it was found and nothing else, by date,
/// and that of one date in the order in which it was found.
pub proof fn lemma_listing_is_sorted_and_complete<T: Dated>(
    reads: Vec<Result<Option<T>, String>>,
    listed: Vec<T>,
    date: u64,
)
    requires
        call_ensures(list_by_date::<T>, (reads,), Ok(listed)),
    ensures
        listed@.to_multiset() == found_in(reads@).to_multiset(),
        forall|i: int, j: int|
            0 <= i < j < listed@.len() ==> (#[trigger] listed@[i]).date() <= (#[trigger] listed@[j]).date(),
        ({
            let same = |item: T| item.date() == date;
            listed@.filter(same) == found_in(reads@).filter(same)
        }),
{
    lemma_listing_is_complete(found_in(reads@), listed@);
    assert(of_date(listed@, date) == of_date(found_in(reads@), date));
    let same = |item: T| item.date() == date;
    lemma_of_date(listed@, date, same);
    lemma_of_date(found_in(reads@), date, same);
}

/// The files that hold metadata are those whose name is something followed by `.json`.
pub proof fn lemma_metadata_files_are_named(stem: Seq<u8>, name: &[u8], is: bool)
    requires
        call_ensures(is_metadata_file, (name,), is),
    ensures
        stem.len() > 0 && name@ == stem + path::utf8(".json"@) ==> is,
        is ==> exists|front: Seq<u8>| front.len() > 0 && name@ == #[trigger] (front + path::utf8(".json"@)),
{
    let extension = path::utf8(".json"@);
    assert((stem + extension).skip((stem + extension).len() - extension.len()) =~= extension);
    if is {
        let front = name@.take(name@.len() - extension.len());
        assert(name@ =~= front + extension);
    }
}

/// A file that is named by a text followed by `.json` counts as one that holds metadata, unless the text is
/// empty.
pub proof fn lemma_json_files_are_found(stem: Seq<char>)
    requires
        stem.len() > 0,
    ensures
        has_json_extension(path::utf8(stem + ".json"@)),
{
    path::lemma_utf8_concat(stem, ".json"@);
    let name = path::utf8(stem + ".json"@);
    let extension = path::utf8(".json"@);
    assert(path::utf8(stem).len() > 0) by {
        vstd::utf8::encode_utf8_first_scalar(stem);
    }
    assert(name.skip(name.len() - extension.len()) =~= extension);
}

} // verus!
