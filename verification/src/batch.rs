//! Several documents used as one unit of work: either all of them are
//! there and the work is done on them together, or the work is not begun.

use crate::document::{made, Document, DocumentView};
use crate::error::{DocumentError, ErrorView};
use crate::text::same_text;
use crate::whoops::{Failure, FailureModel, IntoWhoops};
use vstd::prelude::*;

verus! {

/// The alias of a document that is made like the others of its batch but
/// is not handed to the work.
pub open spec fn sentinel() -> Seq<char> {
    seq!['_']
}

/// The map that holds each of `entries` under its alias; of two with the
/// same alias, the later one.
pub open spec fn mapped(entries: Seq<DocumentView>) -> Map<Seq<char>, DocumentView>
    decreases entries.len(),
{
    if entries.len() == 0 {
        Map::empty()
    } else {
        mapped(entries.drop_last()).insert(entries.last().alias, entries.last())
    }
}

/// What each of a list of documents is, as a mathematical value.
pub open spec fn views(entries: Seq<Document>) -> Seq<DocumentView> {
    entries.map_values(|d: Document| d@)
}

/// Whether `entries[i]` is the last entry with the given alias.
pub open spec fn is_last_with(entries: Seq<DocumentView>, i: int, alias: Seq<char>) -> bool {
    &&& 0 <= i < entries.len()
    &&& entries[i].alias == alias
    &&& forall|j: int| i < j < entries.len() ==> (#[trigger] entries[j]).alias != alias
}

/// The last entry with an alias is what the map holds under that alias.
proof fn lemma_mapped_has(entries: Seq<DocumentView>, i: int)
    requires
        is_last_with(entries, i, entries[i].alias),
    ensures
        mapped(entries).contains_key(entries[i].alias),
        mapped(entries)[entries[i].alias] == entries[i],
    decreases entries.len(),
{
    if i < entries.len() - 1 {
        let rest = entries.drop_last();
        assert(rest[i] == entries[i]);
        assert(entries.last() == entries[entries.len() - 1]);
        assert forall|j: int| i < j < rest.len() implies (#[trigger] rest[j]).alias
            != entries[i].alias by {
            assert(rest[j] == entries[j]);
        }
        lemma_mapped_has(rest, i);
    }
}

/// An alias that no entry has is no key of the map.
proof fn lemma_mapped_lacks(entries: Seq<DocumentView>, alias: Seq<char>)
    requires
        forall|i: int| 0 <= i < entries.len() ==> (#[trigger] entries[i]).alias != alias,
    ensures
        !mapped(entries).contains_key(alias),
    decreases entries.len(),
{
    if entries.len() > 0 {
        let rest = entries.drop_last();
        assert forall|i: int| 0 <= i < rest.len() implies (#[trigger] rest[i]).alias != alias by {
            assert(rest[i] == entries[i]);
        }
        lemma_mapped_lacks(rest, alias);
        assert(entries.last() == entries[entries.len() - 1]);
    }
}

/// Putting a document in the place of the last entry with its alias puts
/// it into the map.
proof fn lemma_mapped_update(entries: Seq<DocumentView>, i: int, document: DocumentView)
    requires
        is_last_with(entries, i, document.alias),
    ensures
        mapped(entries.update(i, document)) == mapped(entries).insert(document.alias, document),
    decreases entries.len(),
{
    let updated = entries.update(i, document);
    let rest = entries.drop_last();
    if i == entries.len() - 1 {
        assert(updated.drop_last() =~= rest);
        assert(mapped(updated) =~= mapped(entries).insert(document.alias, document));
    } else {
        assert forall|j: int| i < j < rest.len() implies (#[trigger] rest[j]).alias
            != document.alias by {
            assert(rest[j] == entries[j]);
        }
        assert(rest[i] == entries[i]);
        lemma_mapped_update(rest, i, document);
        assert(updated.drop_last() =~= rest.update(i, document));
        assert(updated.last() == entries.last());
        assert(entries.last() == entries[entries.len() - 1]);
        assert(mapped(updated) =~= mapped(entries).insert(document.alias, document));
    }
}

/// Documents by their aliases. The documents are kept as a list: the
/// specification of the hash map of std covers keys of integer types only,
/// and of a list it can be stated and proved what the map holds.
pub struct DocumentMap {
    entries: Vec<Document>,
}

impl View for DocumentMap {
    type V = Map<Seq<char>, DocumentView>;

    closed spec fn view(&self) -> Map<Seq<char>, DocumentView> {
        mapped(views(self.entries@))
    }
}

impl DocumentMap {
    /// A map that holds nothing.
    pub fn new() -> (map: DocumentMap)
        ensures
            map@ == Map::<Seq<char>, DocumentView>::empty(),
    {
        DocumentMap { entries: Vec::new() }
    }

    /// Where the last entry with the given alias is.
    fn position(&self, alias: &str) -> (r: Option<usize>)
        ensures
            match r {
                Some(i) => is_last_with(views(self.entries@), i as int, alias@),
                None => forall|i: int|
                    0 <= i < self.entries.len() ==> (#[trigger] views(self.entries@)[i]).alias
                        != alias@,
            },
    {
        let mut i: usize = self.entries.len();
        while i > 0
            invariant
                i <= self.entries.len(),
                forall|k: int|
                    i <= k < self.entries.len() ==> (#[trigger] views(self.entries@)[k]).alias
                        != alias@,
            decreases i,
        {
            i -= 1;
            if same_text(self.entries[i].alias(), alias) {
                return Some(i);
            }
        }
        None
    }

    /// Puts `document` into the map under its alias, in the place of the
    /// document that was there under that alias, if there was one.
    pub fn insert(&mut self, document: Document)
        ensures
            final(self)@ == old(self)@.insert(document@.alias, document@),
    {
        let ghost before = views(self.entries@);
        match self.position(document.alias()) {
            Some(i) => {
                proof {
                    lemma_mapped_update(before, i as int, document@);
                }
                self.entries.set(i, document);
                assert(views(self.entries@) =~= before.update(i as int, document@));
            },
            None => {
                self.entries.push(document);
                assert(views(self.entries@) =~= before.push(document@));
                assert(views(self.entries@).drop_last() =~= before);
            },
        }
    }

    /// The document with the given alias, if the map holds one.
    pub fn get(&self, alias: &str) -> (found: Option<&Document>)
        ensures
            match found {
                Some(document) => self@.contains_key(alias@) && document@ == self@[alias@],
                None => !self@.contains_key(alias@),
            },
    {
        match self.position(alias) {
            Some(i) => {
                proof {
                    lemma_mapped_has(views(self.entries@), i as int);
                }
                Some(&self.entries[i])
            },
            None => {
                proof {
                    lemma_mapped_lacks(views(self.entries@), alias@);
                }
                None
            },
        }
    }

    /// Whether the map holds a document with the given alias.
    pub fn contains(&self, alias: &str) -> (held: bool)
        ensures
            held == self@.contains_key(alias@),
    {
        self.get(alias).is_some()
    }

    /// The document with the given alias, which the map has to hold: which
    /// documents a batch is made of is known where the batch is made.
    pub fn index(&self, alias: &str) -> (document: &Document)
        requires
            self@.contains_key(alias@),
        ensures
            document@ == self@[alias@],
    {
        let at = self.position(alias);
        proof {
            if at is None {
                lemma_mapped_lacks(views(self.entries@), alias@);
            } else {
                lemma_mapped_has(views(self.entries@), at->0 as int);
            }
        }
        &self.entries[at.unwrap()]
    }

    /// The document with the given alias, which the map has to hold, to be
    /// worked on where it stands. As long as the document keeps its alias,
    /// the map holds what the document has become, under that alias.
    pub fn index_mut(&mut self, alias: &str) -> (document: &mut Document)
        requires
            old(self)@.contains_key(alias@),
        ensures
            document@ == old(self)@[alias@],
            final(document)@.alias == alias@ ==> final(self)@ == old(self)@.insert(
                alias@,
                final(document)@,
            ),
    {
        let at = self.position(alias);
        let ghost before = views(self.entries@);
        proof {
            if at is None {
                lemma_mapped_lacks(before, alias@);
            } else {
                lemma_mapped_has(before, at->0 as int);
            }
        }
        let i = at.unwrap();
        let ghost entries = self.entries@;
        proof {
            assert forall|changed: Document| changed@.alias == alias@ implies mapped(
                views(#[trigger] entries.update(i as int, changed)),
            ) == mapped(before).insert(alias@, changed@) by {
                lemma_mapped_update(before, i as int, changed@);
                assert(views(entries.update(i as int, changed)) =~= before.update(
                    i as int,
                    changed@,
                ));
            }
        }
        &mut self.entries[i]
    }
}

/// What each of a list of results is, as a mathematical value.
pub open spec fn outcomes(results: Seq<Result<Document, DocumentError>>) -> Seq<
    Result<DocumentView, ErrorView>,
> {
    results.map_values(|r: Result<Document, DocumentError>| made(r))
}

/// Whether `results[i]` is the first of `results` that is an error.
pub open spec fn fails_first_at(results: Seq<Result<DocumentView, ErrorView>>, i: int) -> bool {
    &&& 0 <= i < results.len()
    &&& results[i] is Err
    &&& forall|j: int| 0 <= j < i ==> (#[trigger] results[j]) is Ok
}

/// Whether every one of `results` is a document.
pub open spec fn all_made(results: Seq<Result<DocumentView, ErrorView>>) -> bool {
    forall|i: int| 0 <= i < results.len() ==> (#[trigger] results[i]) is Ok
}

/// The map of the documents among `results`, each under its alias, but for
/// those whose alias is the sentinel; of two with the same alias, the
/// later one.
pub open spec fn gathered(results: Seq<Result<DocumentView, ErrorView>>) -> Map<
    Seq<char>,
    DocumentView,
>
    decreases results.len(),
{
    if results.len() == 0 {
        Map::empty()
    } else {
        let before = gathered(results.drop_last());
        match results.last() {
            Ok(document) => if document.alias == sentinel() {
                before
            } else {
                before.insert(document.alias, document)
            },
            Err(_) => before,
        }
    }
}

/// The sentinel alias is never a key: whatever the documents, the map that
/// is made of them holds nothing under `_`.
pub proof fn law_sentinel_is_no_key(results: Seq<Result<DocumentView, ErrorView>>)
    ensures
        !gathered(results).contains_key(sentinel()),
    decreases results.len(),
{
    if results.len() > 0 {
        law_sentinel_is_no_key(results.drop_last());
    }
}

/// Every key of the map is the alias of one of the documents, and the map
/// holds a document under its own alias.
pub proof fn law_gathered_keys(results: Seq<Result<DocumentView, ErrorView>>, alias: Seq<char>)
    requires
        gathered(results).contains_key(alias),
    ensures
        gathered(results)[alias].alias == alias,
        exists|i: int|
            0 <= i < results.len() && #[trigger] results[i] == Ok::<DocumentView, ErrorView>(
                gathered(results)[alias],
            ),
    decreases results.len(),
{
    if results.len() > 0 {
        let rest = results.drop_last();
        let last = results.len() - 1;
        match results.last() {
            Ok(document) => {
                if document.alias != sentinel() && document.alias == alias {
                    assert(results[last] == Ok::<DocumentView, ErrorView>(gathered(results)[alias]));
                } else {
                    law_gathered_keys(rest, alias);
                    let i = choose|i: int|
                        0 <= i < rest.len() && #[trigger] rest[i] == Ok::<DocumentView, ErrorView>(
                            gathered(rest)[alias],
                        );
                    assert(results[i] == rest[i]);
                }
            },
            Err(_) => {
                law_gathered_keys(rest, alias);
                let i = choose|i: int|
                    0 <= i < rest.len() && #[trigger] rest[i] == Ok::<DocumentView, ErrorView>(
                        gathered(rest)[alias],
                    );
                assert(results[i] == rest[i]);
            },
        }
    }
}

/// Makes one map of a batch of documents. Where one of them is an error,
/// the first error comes back and there is no map; else the map holds each
/// document under its alias, but for those whose alias is `_`.
pub fn collect(documents: &[Result<Document, DocumentError>]) -> (r: Result<
    DocumentMap,
    DocumentError,
>)
    ensures
        match r {
            Ok(map) => all_made(outcomes(documents@)) && map@ == gathered(outcomes(documents@)),
            Err(error) => exists|i: int|
                fails_first_at(outcomes(documents@), i) && #[trigger] outcomes(documents@)[i]
                    == Err::<DocumentView, ErrorView>(error@),
        },
{
    let ghost all = outcomes(documents@);
    let mut map = DocumentMap::new();
    let mut i: usize = 0;
    while i < documents.len()
        invariant
            i <= documents.len(),
            all == outcomes(documents@),
            forall|j: int| 0 <= j < i ==> (#[trigger] all[j]) is Ok,
            map@ == gathered(all.take(i as int)),
        decreases documents.len() - i,
    {
        proof {
            assert(all.take(i + 1).drop_last() =~= all.take(i as int));
            assert(all.take(i + 1).last() == all[i as int]);
            assert(all[i as int] == made(documents@[i as int]));
        }
        match &documents[i] {
            Ok(document) => {
                if !same_text(document.alias(), "_") {
                    map.insert(document.clone());
                }
                proof {
                    reveal_strlit("_");
                    assert("_"@ =~= sentinel());
                }
            },
            Err(error) => {
                let error = error.clone();
                assert(fails_first_at(all, i as int));
                return Err(error);
            },
        }
        i += 1;
    }
    proof {
        assert(all.take(documents.len() as int) =~= all);
    }
    Ok(map)
}

/// How the work on a batch of documents ended.
#[derive(Debug, Clone)]
pub enum Batch {
    /// All documents were there, and the work went well.
    Done,
    /// One of the documents was not there, for the reason given: the work
    /// was not begun.
    Aborted(DocumentError),
    /// All documents were there, and the work failed for the reason given.
    Failed(Failure),
}

/// Does `closure` on a batch of documents, all or nothing. Where one of
/// `documents` is an error, the work is not begun and the first error is
/// reported. Else `closure` gets the map of the documents by their aliases,
/// without those whose alias is `_`, and what it returns says whether the
/// work went well. A failure is reported, never passed on as an error.
pub fn with<Closure, Return>(
    documents: &[Result<Document, DocumentError>],
    closure: Closure,
) -> (batch: Batch) where Closure: FnOnce(DocumentMap) -> Return, Return: IntoWhoops
    requires
        all_made(outcomes(documents@)) ==> forall|map: DocumentMap|
            map@ == gathered(outcomes(documents@)) ==> #[trigger] closure.requires((map,)),
    ensures
        match batch {
            Batch::Aborted(error) => exists|i: int|
                fails_first_at(outcomes(documents@), i) && #[trigger] outcomes(documents@)[i]
                    == Err::<DocumentView, ErrorView>(error@),
            Batch::Done => all_made(outcomes(documents@)) && exists|
                map: DocumentMap,
                returned: Return,
            |
                map@ == gathered(outcomes(documents@)) && #[trigger] closure.ensures(
                    (map,),
                    returned,
                ) && returned.outcome() is Ok,
            Batch::Failed(failure) => all_made(outcomes(documents@)) && exists|
                map: DocumentMap,
                returned: Return,
            |
                map@ == gathered(outcomes(documents@)) && #[trigger] closure.ensures(
                    (map,),
                    returned,
                ) && returned.outcome() == Err::<(), FailureModel>(failure@),
        },
{
    match collect(documents) {
        Err(error) => Batch::Aborted(error),
        Ok(map) => {
            let ghost handed = map;
            let returned = closure(map);
            let ghost came = returned;
            assert(closure.ensures((handed,), came));
            match returned.into_whoops() {
                Ok(_) => Batch::Done,
                Err(failure) => Batch::Failed(failure),
            }
        },
    }
}

} // verus!
