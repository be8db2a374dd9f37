//! Providers of macro variable values.

use std::collections::HashMap;
use vstd::prelude::*;

use crate::variable::{letter_of, AnyMacroVariable, MacroVariable};

verus! {

broadcast use vstd::std_specs::hash::group_hash_axioms;

/// Why a macro string could not be expanded.
#[derive(Debug, Copy, Clone, PartialEq, Eq, Structural)]
pub enum MacroEvaluationError {
    /// The escape grammar was broken: an unterminated or malformed `%` escape.
    ParsingSyntaxError,
    /// The letter is not a macro variable, or the context holds no value for it.
    UnknownVariable(AnyMacroVariable),
    /// The label count of a transform does not fit in a `usize`.
    InvalidTransformCount,
}

/// The answer that a context owes for variable `v` when its value is `value`.
pub open spec fn provides(value: Option<Seq<char>>, v: MacroVariable, r: Result<String, MacroEvaluationError>) -> bool {
    match r {
        Ok(s) => value == Some(s@),
        Err(e) => value is None && e == MacroEvaluationError::UnknownVariable(AnyMacroVariable::Known(v)),
    }
}

/// A source of the values of macro variables.
pub trait EvaluationContext {
    /// The value that this context holds for `v`, if any.
    spec fn value_of(&self, v: MacroVariable) -> Option<Seq<char>>;

    /// Looks up the value of `v`; fails with `UnknownVariable` when there is none.
    fn provide_data(&self, v: MacroVariable) -> (r: Result<String, MacroEvaluationError>)
        ensures
            provides(self.value_of(v), v, r),
    ;
}

/// A borrowed context answers as the context it borrows.
impl<'a, T: EvaluationContext> EvaluationContext for &'a T {
    open spec fn value_of(&self, v: MacroVariable) -> Option<Seq<char>> {
        (**self).value_of(v)
    }

    fn provide_data(&self, v: MacroVariable) -> (r: Result<String, MacroEvaluationError>) {
        (**self).provide_data(v)
    }
}

/// The value of the first pair at or after index `i` whose variable is `v`.
pub open spec fn first_value_from(s: Seq<(MacroVariable, Seq<char>)>, v: MacroVariable, i: int) -> Option<Seq<char>>
    decreases s.len() - i,
{
    if i < 0 || i >= s.len() {
        None
    } else if s[i].0 == v {
        Some(s[i].1)
    } else {
        first_value_from(s, v, i + 1)
    }
}

/// The pairs are ordered by the letters of their variables.
pub open spec fn sorted_by_letter(s: Seq<(MacroVariable, Seq<char>)>) -> bool {
    forall|i: int, j: int| 0 <= i < j < s.len() ==> letter_of(#[trigger] s[i].0) <= letter_of(#[trigger] s[j].0)
}

/// Pairs from `i` up to `k` that do not hold `v` do not change which value is found first.
proof fn lemma_first_value_skip(s: Seq<(MacroVariable, Seq<char>)>, v: MacroVariable, i: int, k: int)
    requires
        0 <= i <= k <= s.len(),
        forall|j: int| i <= j < k ==> s[j].0 != v,
    ensures
        first_value_from(s, v, i) == first_value_from(s, v, k),
    decreases k - i,
{
    if i < k {
        lemma_first_value_skip(s, v, i + 1, k);
    }
}

/// A sequence of (variable, value) pairs. When the pairs are ordered by
/// variable, lookups use binary search; otherwise they scan. Where a variable
/// occurs more than once, its first pair counts.
pub struct VecEvaluationContext {
    sorted: bool,
    entries: Vec<(MacroVariable, String)>,
}

impl View for VecEvaluationContext {
    type V = Seq<(MacroVariable, Seq<char>)>;

    closed spec fn view(&self) -> Seq<(MacroVariable, Seq<char>)> {
        self.entries@.map_values(|p: (MacroVariable, String)| (p.0, p.1@))
    }
}

impl VecEvaluationContext {
    #[verifier::type_invariant]
    spec fn wf(&self) -> bool {
        self.sorted == sorted_by_letter(self@)
    }

    /// Whether lookups take the binary search path.
    pub closed spec fn uses_binary_search(&self) -> bool {
        self.sorted
    }

    /// Wraps `data`, noting once whether it is ordered by variable.
    pub fn from(data: Vec<(MacroVariable, String)>) -> (r: VecEvaluationContext)
        ensures
            r@ == data@.map_values(|p: (MacroVariable, String)| (p.0, p.1@)),
            r.uses_binary_search() == sorted_by_letter(r@),
    {
        let ghost s = data@.map_values(|p: (MacroVariable, String)| (p.0, p.1@));
        let mut sorted = true;
        let mut i: usize = 1;
        while i < data.len()
            invariant
                s == data@.map_values(|p: (MacroVariable, String)| (p.0, p.1@)),
                1 <= i,
                sorted ==> forall|a: int, b: int| 0 <= a < b < i && b < s.len() ==> letter_of(#[trigger] s[a].0) <= letter_of(#[trigger] s[b].0),
                !sorted ==> !sorted_by_letter(s),
            decreases data.len() - i,
        {
            if data[i - 1].0.into_num() > data[i].0.into_num() {
                assert(letter_of(s[i - 1].0) > letter_of(s[i as int].0));
                sorted = false;
            }
            i = i + 1;
        }
        VecEvaluationContext { sorted, entries: data }
    }

    /// Gives back the pairs.
    pub fn into(self) -> (r: Vec<(MacroVariable, String)>)
        ensures
            r@.map_values(|p: (MacroVariable, String)| (p.0, p.1@)) == self@,
    {
        self.entries
    }

    /// Index of the first pair whose letter is not below that of `v`.
    fn lower_bound(&self, v: MacroVariable) -> (r: usize)
        requires
            sorted_by_letter(self@),
        ensures
            r <= self@.len(),
            forall|j: int| 0 <= j < r ==> letter_of(#[trigger] self@[j].0) < letter_of(v),
            r < self@.len() ==> letter_of(self@[r as int].0) >= letter_of(v),
    {
        let key = v.into_num();
        let mut lo: usize = 0;
        let mut hi: usize = self.entries.len();
        while lo < hi
            invariant
                lo <= hi <= self.entries@.len(),
                self@.len() == self.entries@.len(),
                sorted_by_letter(self@),
                key == letter_of(v),
                forall|j: int| 0 <= j < lo ==> letter_of(#[trigger] self@[j].0) < key,
                forall|j: int| hi <= j < self@.len() ==> letter_of(#[trigger] self@[j].0) >= key,
            decreases hi - lo,
        {
            let mid = lo + (hi - lo) / 2;
            assert(self@[mid as int].0 == self.entries@[mid as int].0);
            if self.entries[mid].0.into_num() < key {
                lo = mid + 1;
            } else {
                hi = mid;
            }
        }
        lo
    }
}

impl EvaluationContext for VecEvaluationContext {
    open spec fn value_of(&self, v: MacroVariable) -> Option<Seq<char>> {
        first_value_from(self@, v, 0)
    }

    fn provide_data(&self, v: MacroVariable) -> (r: Result<String, MacroEvaluationError>) {
        proof {
            use_type_invariant(self);
        }
        let not_found = Err(MacroEvaluationError::UnknownVariable(AnyMacroVariable::Known(v)));
        if self.sorted {
            let idx = self.lower_bound(v);
            proof {
                lemma_first_value_skip(self@, v, 0, idx as int);
            }
            if idx < self.entries.len() && self.entries[idx].0 == v {
                assert(self@[idx as int] == (self.entries@[idx as int].0, self.entries@[idx as int].1@));
                Ok(self.entries[idx].1.clone())
            } else {
                proof {
                    if idx < self@.len() {
                        assert forall|j: int| idx <= j < self@.len() implies self@[j].0 != v by {
                            assert(letter_of(self@[idx as int].0) <= letter_of(self@[j].0));
                            assert(self@[idx as int].0 != v);
                            crate::variable::lemma_letter_round_trip(self@[j].0, letter_of(v));
                        }
                    }
                    lemma_first_value_skip(self@, v, idx as int, self@.len() as int);
                }
                not_found
            }
        } else {
            let mut i: usize = 0;
            while i < self.entries.len()
                invariant
                    i <= self.entries@.len(),
                    self@.len() == self.entries@.len(),
                    first_value_from(self@, v, 0) == first_value_from(self@, v, i as int),
                decreases self.entries.len() - i,
            {
                assert(self@[i as int] == (self.entries@[i as int].0, self.entries@[i as int].1@));
                if self.entries[i].0 == v {
                    return Ok(self.entries[i].1.clone());
                }
                i = i + 1;
            }
            not_found
        }
    }
}

/// A mapping from macro variables to their values, with one value per variable.
pub struct MapEvaluationContext {
    values: HashMap<u8, String>,
}

impl View for MapEvaluationContext {
    type V = Map<MacroVariable, Seq<char>>;

    closed spec fn view(&self) -> Map<MacroVariable, Seq<char>> {
        Map::new(
            |v: MacroVariable| self.values@.contains_key(letter_of(v)),
            |v: MacroVariable| self.values@[letter_of(v)]@,
        )
    }
}

impl MapEvaluationContext {
    /// A context that holds no value.
    pub fn new() -> (r: MapEvaluationContext)
        ensures
            r@ == Map::<MacroVariable, Seq<char>>::empty(),
    {
        let r = MapEvaluationContext { values: HashMap::new() };
        assert(r@ =~= Map::<MacroVariable, Seq<char>>::empty());
        r
    }

    /// Binds `v` to `value`, replacing an earlier value.
    pub fn insert(&mut self, v: MacroVariable, value: String)
        ensures
            final(self)@ == old(self)@.insert(v, value@),
    {
        self.values.insert(v.into_num(), value);
        proof {
            assert forall|w: MacroVariable| letter_of(w) == letter_of(v) implies w == v by {
                crate::variable::lemma_letter_round_trip(w, letter_of(v));
            }
        }
        assert(self@ =~= old(self)@.insert(v, value@));
    }
}

impl EvaluationContext for MapEvaluationContext {
    open spec fn value_of(&self, v: MacroVariable) -> Option<Seq<char>> {
        if self@.contains_key(v) {
            Some(self@[v])
        } else {
            None
        }
    }

    fn provide_data(&self, v: MacroVariable) -> (r: Result<String, MacroEvaluationError>) {
        match self.values.get(&v.into_num()) {
            Some(s) => Ok(s.clone()),
            None => Err(MacroEvaluationError::UnknownVariable(AnyMacroVariable::Known(v))),
        }
    }
}

} // verus!
