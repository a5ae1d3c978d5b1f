//! The driver: candidates in enumeration order, until one matches the target
//! or the budget is spent.

use crate::engine::{candidate_of, derive_address, Candidate, Network};
use crate::error::SearchError;
use crate::language::{language_named, lowercase_of, parse_language, Language};
use crate::orders::{
    factorial, given_order, index_orders, is_lex_walk, is_order, lex_walk_starts_in_given_order,
    next_order, start_orders, upcoming, walk_limit,
};
use crate::target::{base58check_payload, parse_target, target_check, TargetAddress};
use vstd::prelude::*;
use vstd::string::StringExecFns;

verus! {

/// How a search ended.
#[derive(Clone, Debug, PartialEq, Eq)]
pub enum SearchOutcome {
    /// The candidate at `index` derives the target address.
    Found { phrase: String, index: usize, address: String },
    /// No candidate among the first `examined` derives the target address.
    Exhausted { examined: usize },
}

/// The words at the positions that `order` names, joined by single spaces.
pub open spec fn phrase_of(texts: Seq<Seq<char>>, order: Seq<usize>) -> Seq<char>
    decreases order.len(),
{
    if order.len() == 0 {
        Seq::empty()
    } else if order.len() == 1 {
        texts[order[0] as int]
    } else {
        phrase_of(texts, order.drop_last()) + seq![' '] + texts[order.last() as int]
    }
}

/// The phrase of the candidate at `index` of the enumeration.
pub open spec fn phrase_at(texts: Seq<Seq<char>>, index: int) -> Seq<char> {
    phrase_of(texts, index_orders(texts.len())[index])
}

/// What the candidate at `index` of the enumeration leads to on mainnet.
pub open spec fn candidate_at(texts: Seq<Seq<char>>, language: Language, index: int) -> Candidate {
    candidate_of(Network::Mainnet, language, phrase_at(texts, index))
}

/// The search ends at the candidate at `index`: it derives the target
/// address, or a key could not be made for it.
pub open spec fn stops_at(
    texts: Seq<Seq<char>>,
    target: Seq<char>,
    language: Language,
    index: int,
) -> bool {
    match candidate_at(texts, language, index) {
        Candidate::Address(address) => address == target,
        Candidate::Invalid => false,
        Candidate::Failed(_) => true,
    }
}

/// No candidate before `index` ends the search.
pub open spec fn none_stops_before(
    texts: Seq<Seq<char>>,
    target: Seq<char>,
    language: Language,
    index: int,
) -> bool {
    forall|j: int| 0 <= j < index ==> !#[trigger] stops_at(texts, target, language, j)
}

/// The candidate at `at` is the first within the limit that ends the
/// search, and it ends it with the error `e`.
pub open spec fn fails_first_at(
    texts: Seq<Seq<char>>,
    target: Seq<char>,
    budget: nat,
    language: Language,
    e: SearchError,
    at: int,
) -> bool {
    &&& 0 <= at < walk_limit(texts.len(), budget)
    &&& none_stops_before(texts, target, language, at)
    &&& candidate_at(texts, language, at) == Candidate::Failed(e)
}

/// `outcome` is what a search over the words `texts` for `target` with the
/// budget `budget` gives: the first candidate within the limit that ends
/// the search decides, and where there is none the search is exhausted
/// after as many candidates as the limit says.
pub open spec fn is_search_outcome(
    texts: Seq<Seq<char>>,
    target: Seq<char>,
    budget: nat,
    language: Language,
    outcome: Result<SearchOutcome, SearchError>,
) -> bool {
    let limit = walk_limit(texts.len(), budget);
    match outcome {
        Ok(SearchOutcome::Found { phrase, index, address }) => {
            &&& index < limit
            &&& none_stops_before(texts, target, language, index as int)
            &&& phrase@ == phrase_at(texts, index as int)
            &&& address@ == target
            &&& candidate_of(Network::Mainnet, language, phrase@) == Candidate::Address(target)
        },
        Ok(SearchOutcome::Exhausted { examined }) => {
            &&& examined == limit
            &&& none_stops_before(texts, target, language, limit as int)
        },
        Err(e) => exists|at: int| fails_first_at(texts, target, budget, language, e, at),
    }
}

/// Whether a progress line is due after `examined` candidates: at every
/// thousandth, not at the start.
pub fn progress_due(examined: usize) -> (due: bool)
    ensures
        due == (examined > 0 && examined % 1000 == 0),
{
    examined % 1000 == 0 && examined > 0
}

/// The candidate phrase of an ordering: the words at its positions, joined
/// by single spaces.
pub fn join_order(words: &Vec<String>, order: &Vec<usize>) -> (phrase: String)
    requires
        forall|i: int| 0 <= i < order@.len() ==> (#[trigger] order@[i]) < words@.len(),
    ensures
        phrase@ == phrase_of(words.deep_view(), order@),
{
    let mut phrase = String::new();
    let mut i: usize = 0;
    while i < order.len()
        invariant
            i <= order@.len(),
            forall|k: int| 0 <= k < order@.len() ==> (#[trigger] order@[k]) < words@.len(),
            phrase@ == phrase_of(words.deep_view(), order@.take(i as int)),
        decreases order@.len() - i,
    {
        let ghost before = order@.take(i as int);
        let ghost after = order@.take(i + 1);
        assert(after.drop_last() =~= before);
        assert(after.last() == order@[i as int]);
        assert(words.deep_view()[order@[i as int] as int] == words@[order@[i as int] as int]@);
        if i > 0 {
            phrase.append(" ");
            proof {
                reveal_strlit(" ");
                assert(" "@ =~= seq![' ']);
            }
        }
        phrase.append(words[order[i]].as_str());
        i += 1;
    }
    assert(order@.take(i as int) =~= order@);
    phrase
}

/// What one step of a search that has examined `at` candidates may return:
/// nothing while the search goes on, an outcome where it ends, an error
/// where a key could not be made for the candidate at `at`.
pub open spec fn is_step_result(
    texts: Seq<Seq<char>>,
    target: Seq<char>,
    budget: nat,
    language: Language,
    at: nat,
    result: Result<Option<SearchOutcome>, SearchError>,
) -> bool {
    let limit = walk_limit(texts.len(), budget);
    match result {
        Ok(None) => at < limit && !stops_at(texts, target, language, at as int),
        Ok(Some(SearchOutcome::Found { phrase, index, address })) => {
            &&& at < limit
            &&& index == at
            &&& phrase@ == phrase_at(texts, at as int)
            &&& address@ == target
            &&& candidate_of(Network::Mainnet, language, phrase@) == Candidate::Address(target)
        },
        Ok(Some(SearchOutcome::Exhausted { examined })) => at == limit && examined == at,
        Err(e) => {
            &&& at < limit
            &&& candidate_at(texts, language, at as int) == Candidate::Failed(e)
        },
    }
}

/// A search in progress: the orderings still to come and the number of
/// candidates examined so far.
pub struct Search {
    orders: itertools::structs::Permutations<core::ops::Range<usize>>,
    count: usize,
    budget: usize,
    examined: usize,
}

impl Search {
    /// The number of words whose orderings are walked.
    pub closed spec fn count(&self) -> nat {
        self.count as nat
    }

    /// The largest number of candidates that the search examines.
    pub closed spec fn budget(&self) -> nat {
        self.budget as nat
    }

    /// The number of candidates examined so far.
    pub closed spec fn progress(&self) -> nat {
        self.examined as nat
    }

    /// The orderings still to come are those of the enumeration from the
    /// current candidate on, and the budget is not overspent.
    pub closed spec fn wf(&self) -> bool {
        &&& is_lex_walk(index_orders(self.count as nat), self.count as nat)
        &&& self.examined <= self.budget
        &&& self.examined <= index_orders(self.count as nat).len()
        &&& upcoming(self.orders) == index_orders(self.count as nat).skip(self.examined as int)
    }

    /// A search over the orderings of `count` words that examines at most
    /// `budget` candidates.
    pub fn new(count: usize, budget: usize) -> (search: Search)
        requires
            count <= 20,
        ensures
            search.wf(),
            search.count() == count,
            search.budget() == budget,
            search.progress() == 0,
    {
        let orders = start_orders(count);
        assert(index_orders(count as nat).skip(0) =~= index_orders(count as nat));
        Search { orders, count, budget, examined: 0 }
    }

    /// The number of candidates examined so far.
    pub fn examined(&self) -> (examined: usize)
        ensures
            examined == self.progress(),
    {
        self.examined
    }

    /// Examines the next candidate, which then counts as examined. A
    /// candidate that is no valid mnemonic, or whose address is not the
    /// target, is passed over and the search goes on; one that derives the
    /// target address ends it with `Found`; one for which a key cannot be
    /// made ends it with the error. Where the budget is spent or no
    /// ordering is left, the search is `Exhausted` and nothing is examined.
    pub fn step(
        &mut self,
        words: &Vec<String>,
        target: &TargetAddress,
        language: Language,
    ) -> (result: Result<Option<SearchOutcome>, SearchError>)
        requires
            old(self).wf(),
            words@.len() == old(self).count(),
        ensures
            final(self).wf(),
            final(self).count() == old(self).count(),
            final(self).budget() == old(self).budget(),
            final(self).progress() == old(self).progress() + (match result {
                Ok(Some(SearchOutcome::Exhausted { .. })) => 0nat,
                _ => 1nat,
            }),
            is_step_result(
                words.deep_view(),
                target@,
                old(self).budget(),
                language,
                old(self).progress(),
                result,
            ),
    {
        let ghost all = index_orders(self.count as nat);
        let ghost at = self.examined as int;
        if self.examined >= self.budget {
            return Ok(Some(SearchOutcome::Exhausted { examined: self.examined }));
        }
        match next_order(&mut self.orders) {
            None => {
                assert(upcoming(self.orders) =~= all.skip(at));
                Ok(Some(SearchOutcome::Exhausted { examined: self.examined }))
            },
            Some(order) => {
                assert(order@ == all[at]);
                assert(is_order(all[at], self.count as nat));
                assert(all.skip(at).skip(1) =~= all.skip(at + 1));
                let phrase = join_order(words, &order);
                assert(phrase@ == phrase_at(words.deep_view(), at));
                let index = self.examined;
                self.examined = index + 1;
                match derive_address(Network::Mainnet, language, phrase.as_str()) {
                    Err(e) => Err(e),
                    Ok(None) => Ok(None),
                    Ok(Some(address)) => {
                        if target.matches(&address) {
                            Ok(Some(SearchOutcome::Found { phrase, index, address }))
                        } else {
                            Ok(None)
                        }
                    },
                }
            },
        }
    }
}

/// Walks the orderings of the words in enumeration order, at most
/// `max_permutations` of them. A candidate that is no valid mnemonic is
/// passed over; the first that derives the target address ends the search
/// with `Found`; one for which a key cannot be made ends it with the error.
pub fn search_permutations(
    words: &Vec<String>,
    target: &TargetAddress,
    max_permutations: usize,
    language: Language,
) -> (outcome: Result<SearchOutcome, SearchError>)
    requires
        words@.len() <= 20,
    ensures
        is_search_outcome(
            words.deep_view(),
            target@,
            max_permutations as nat,
            language,
            outcome,
        ),
        is_lex_walk(index_orders(words@.len()), words@.len()),
{
    let mut search = Search::new(words.len(), max_permutations);
    loop
        invariant
            search.wf(),
            search.count() == words@.len(),
            search.budget() == max_permutations,
            search.progress() <= walk_limit(words@.len(), max_permutations as nat),
            none_stops_before(words.deep_view(), target@, language, search.progress() as int),
        decreases walk_limit(words@.len(), max_permutations as nat) - search.progress(),
    {
        let ghost at = search.progress() as int;
        match search.step(words, target, language) {
            Err(e) => {
                assert(fails_first_at(
                    words.deep_view(),
                    target@,
                    max_permutations as nat,
                    language,
                    e,
                    at,
                ));
                return Err(e);
            },
            Ok(Some(outcome)) => {
                return Ok(outcome);
            },
            Ok(None) => {},
        }
    }
}

/// What stands in the way of a search, in the order in which it is looked
/// for: the number of words, the target address, the language.
pub open spec fn config_error(
    target_address: Seq<char>,
    count: nat,
    language: Seq<char>,
) -> Option<SearchError> {
    if count != 12 {
        Some(SearchError::WordCount { got: count as usize })
    } else {
        match target_check(base58check_payload(target_address)) {
            Err(e) => Some(e),
            Ok(_) => match language_named(lowercase_of(language)) {
                None => Some(SearchError::UnknownLanguage),
                Some(_) => None,
            },
        }
    }
}

/// Checks the request and then searches. Anything but twelve words, a
/// target that is no legacy mainnet address, or an unknown language name
/// is refused before the first candidate is made.
pub fn recover(
    target_address: &str,
    words: &Vec<String>,
    max_permutations: usize,
    language: &str,
) -> (outcome: Result<SearchOutcome, SearchError>)
    ensures
        match config_error(target_address@, words@.len(), language@) {
            Some(e) => outcome == Err::<SearchOutcome, SearchError>(e),
            None => is_search_outcome(
                words.deep_view(),
                target_address@,
                max_permutations as nat,
                language_named(lowercase_of(language@))->Some_0,
                outcome,
            ),
        },
{
    if words.len() != 12 {
        return Err(SearchError::WordCount { got: words.len() });
    }
    let target = match parse_target(target_address) {
        Err(e) => {
            return Err(e);
        },
        Ok(target) => target,
    };
    let language = match parse_language(language) {
        Err(e) => {
            return Err(e);
        },
        Ok(language) => language,
    };
    search_permutations(words, &target, max_permutations, language)
}

/// A candidate within the limit that derives the target address, with no
/// key failure at a candidate before it, is found: the search reports
/// `Found`, at that candidate or at an earlier one that derives the target
/// address too.
pub proof fn match_within_limit_is_found(
    texts: Seq<Seq<char>>,
    target: Seq<char>,
    budget: nat,
    language: Language,
    outcome: Result<SearchOutcome, SearchError>,
    index: int,
)
    requires
        is_search_outcome(texts, target, budget, language, outcome),
        0 <= index < walk_limit(texts.len(), budget),
        candidate_at(texts, language, index) == Candidate::Address(target),
        forall|j: int|
            0 <= j < index ==> !((#[trigger] candidate_at(texts, language, j)) is Failed),
    ensures
        outcome matches Ok(SearchOutcome::Found { index: found, .. }) && found <= index,
{
    assert(stops_at(texts, target, language, index));
    match outcome {
        Ok(SearchOutcome::Found { phrase, index: found, address }) => {
            if found > index {
                assert(!stops_at(texts, target, language, index));
            }
        },
        Ok(SearchOutcome::Exhausted { examined }) => {
            assert(!stops_at(texts, target, language, index));
        },
        Err(e) => {
            let at = choose|at: int| fails_first_at(texts, target, budget, language, e, at);
            if at > index {
                assert(!stops_at(texts, target, language, index));
            }
        },
    }
}

/// Words that are given in the right order already are found at index 0,
/// whatever the budget, as long as it is not 0.
pub proof fn right_order_is_found_first(
    texts: Seq<Seq<char>>,
    target: Seq<char>,
    budget: nat,
    language: Language,
    outcome: Result<SearchOutcome, SearchError>,
)
    requires
        is_search_outcome(texts, target, budget, language, outcome),
        is_lex_walk(index_orders(texts.len()), texts.len()),
        texts.len() <= usize::MAX,
        budget >= 1,
        candidate_of(Network::Mainnet, language, phrase_of(texts, given_order(texts.len())))
            == Candidate::Address(target),
    ensures
        outcome matches Ok(SearchOutcome::Found { phrase, index, address }) && index == 0
            && phrase@ == phrase_of(texts, given_order(texts.len())) && address@ == target,
{
    lex_walk_starts_in_given_order(index_orders(texts.len()), texts.len());
    match_within_limit_is_found(texts, target, budget, language, outcome, 0);
}

/// Where the budget covers every ordering, any ordering of the words whose
/// phrase derives the target address makes the search report `Found`,
/// provided that a key can be made for every valid candidate.
pub proof fn some_ordering_matches_is_found(
    texts: Seq<Seq<char>>,
    target: Seq<char>,
    budget: nat,
    language: Language,
    outcome: Result<SearchOutcome, SearchError>,
    order: Seq<usize>,
)
    requires
        is_search_outcome(texts, target, budget, language, outcome),
        is_lex_walk(index_orders(texts.len()), texts.len()),
        budget >= factorial(texts.len()),
        is_order(order, texts.len()),
        candidate_of(Network::Mainnet, language, phrase_of(texts, order)) == Candidate::Address(
            target,
        ),
        forall|j: int|
            0 <= j < factorial(texts.len()) ==> !((#[trigger] candidate_at(texts, language, j))
                is Failed),
    ensures
        outcome matches Ok(SearchOutcome::Found { .. }),
{
    let all = index_orders(texts.len());
    assert(all.contains(order));
    let index = choose|index: int| 0 <= index < all.len() && all[index] == order;
    match_within_limit_is_found(texts, target, budget, language, outcome, index);
}

/// Where no candidate within the limit derives the target address or fails
/// to give a key, the search is exhausted after exactly as many candidates
/// as the limit says: the budget, or the number of orderings where that is
/// smaller.
pub proof fn no_match_is_exhausted(
    texts: Seq<Seq<char>>,
    target: Seq<char>,
    budget: nat,
    language: Language,
    outcome: Result<SearchOutcome, SearchError>,
)
    requires
        is_search_outcome(texts, target, budget, language, outcome),
        none_stops_before(texts, target, language, walk_limit(texts.len(), budget) as int),
    ensures
        outcome matches Ok(SearchOutcome::Exhausted { examined }) && examined == walk_limit(
            texts.len(),
            budget,
        ),
{
    match outcome {
        Ok(SearchOutcome::Found { phrase, index, address }) => {
            assert(stops_at(texts, target, language, index as int));
        },
        Ok(SearchOutcome::Exhausted { examined }) => {},
        Err(e) => {
            let at = choose|at: int| fails_first_at(texts, target, budget, language, e, at);
            assert(stops_at(texts, target, language, at));
        },
    }
}

/// Two searches with the same words, target, budget and language end the
/// same way: at the same candidate with the same phrase, after the same
/// number of candidates, or with the same error.
pub proof fn search_is_repeatable(
    texts: Seq<Seq<char>>,
    target: Seq<char>,
    budget: nat,
    language: Language,
    first: Result<SearchOutcome, SearchError>,
    second: Result<SearchOutcome, SearchError>,
)
    requires
        is_search_outcome(texts, target, budget, language, first),
        is_search_outcome(texts, target, budget, language, second),
    ensures
        match (first, second) {
            (
                Ok(SearchOutcome::Found { phrase: p1, index: i1, address: a1 }),
                Ok(SearchOutcome::Found { phrase: p2, index: i2, address: a2 }),
            ) => i1 == i2 && p1@ == p2@ && a1@ == a2@,
            (
                Ok(SearchOutcome::Exhausted { examined: e1 }),
                Ok(SearchOutcome::Exhausted { examined: e2 }),
            ) => e1 == e2,
            (Err(e1), Err(e2)) => e1 == e2,
            _ => false,
        },
{
    let limit = walk_limit(texts.len(), budget) as int;
    let stop1 = stop_of(texts, target, budget, language, first);
    let stop2 = stop_of(texts, target, budget, language, second);
    if stop1 < stop2 {
        assert(!stops_at(texts, target, language, stop1));
    }
    if stop2 < stop1 {
        assert(!stops_at(texts, target, language, stop2));
    }
}

/// The index of the candidate at which a search with this outcome ended,
/// or the limit where it was exhausted.
pub open spec fn stop_of(
    texts: Seq<Seq<char>>,
    target: Seq<char>,
    budget: nat,
    language: Language,
    outcome: Result<SearchOutcome, SearchError>,
) -> int {
    match outcome {
        Ok(SearchOutcome::Found { index, .. }) => index as int,
        Ok(SearchOutcome::Exhausted { examined }) => examined as int,
        Err(e) => choose|at: int| fails_first_at(texts, target, budget, language, e, at),
    }
}

} // verus!
