//! The DFA that drives the lexer: a configuration of named states with
//! ordered transitions, and its longest-match simulation.
use vstd::prelude::*;
use crate::text::{str_eq};
use crate::lexer::lexer::{PascalLexer, transition_matches};

verus! {

/// One transition: the input class it accepts and the state it leads to.
#[derive(Debug, Clone)]
pub struct Transition {
    pub input: String,
    pub next_state: String,
}

/// One DFA state.
#[derive(Debug, Clone)]
pub struct State {
    pub is_final: bool,
    pub token_type: Option<String>,
    pub transitions: Vec<Transition>,
}

/// The DFA configuration: the start state, the states by name, and the
/// reserved words by their lower-case spelling with the token-kind name
/// they map to. A name occurs at most once in `states` and in
/// `reserved_words`.
#[derive(Debug, Clone)]
pub struct DfaConfig {
    pub start_state: String,
    pub states: Vec<(String, State)>,
    pub reserved_words: Vec<(String, String)>,
}

/// The position of the first entry of `states`, from `i` on, named `name`.
pub open spec fn find_state_from(states: Seq<(String, State)>, name: Seq<char>, i: int) -> Option<int>
    decreases states.len() - i,
{
    if i < 0 || i >= states.len() {
        None
    } else if states[i].0@ == name {
        Some(i)
    } else {
        find_state_from(states, name, i + 1)
    }
}

/// The position of the state named `name`, if there is one.
pub open spec fn find_state(states: Seq<(String, State)>, name: Seq<char>) -> Option<int> {
    find_state_from(states, name, 0)
}

/// The value that `pairs` maps `key` to, from position `i` on.
pub open spec fn find_pair_from(pairs: Seq<(String, String)>, key: Seq<char>, i: int) -> Option<Seq<char>>
    decreases pairs.len() - i,
{
    if i < 0 || i >= pairs.len() {
        None
    } else if pairs[i].0@ == key {
        Some(pairs[i].1@)
    } else {
        find_pair_from(pairs, key, i + 1)
    }
}

/// The value that `pairs` maps `key` to, if any.
pub open spec fn find_pair(pairs: Seq<(String, String)>, key: Seq<char>) -> Option<Seq<char>> {
    find_pair_from(pairs, key, 0)
}

/// The target of the first transition, from position `i` on, that accepts `c`.
pub open spec fn first_transition_from(ts: Seq<Transition>, c: char, i: int) -> Option<Seq<char>>
    decreases ts.len() - i,
{
    if i < 0 || i >= ts.len() {
        None
    } else if transition_matches(ts[i].input@, c) {
        Some(ts[i].next_state@)
    } else {
        first_transition_from(ts, c, i + 1)
    }
}

impl DfaConfig {
    /// No state name and no reserved word occurs twice, every name that
    /// the configuration refers to is a state, and every final state names
    /// a token kind.
    pub open spec fn wf(&self) -> bool {
        &&& forall|a: int, b: int| 0 <= a < b < self.states@.len() ==> #[trigger] self.states@[a].0@ != #[trigger] self.states@[b].0@
        &&& forall|a: int, b: int| 0 <= a < b < self.reserved_words@.len()
            ==> #[trigger] self.reserved_words@[a].0@ != #[trigger] self.reserved_words@[b].0@
        &&& find_state(self.states@, self.start_state@) is Some
        &&& forall|i: int, j: int|
            0 <= i < self.states@.len() && 0 <= j < self.states@[i].1.transitions@.len()
                ==> (#[trigger] find_state(self.states@, self.states@[i].1.transitions@[j].next_state@)) is Some
        &&& forall|i: int|
            0 <= i < self.states@.len() && (#[trigger] self.states@[i]).1.is_final
                ==> self.states@[i].1.token_type is Some
    }

    /// The state that one step on `c` leads to from the state named `name`.
    pub open spec fn step(&self, name: Seq<char>, c: char) -> Option<Seq<char>> {
        match find_state(self.states@, name) {
            Some(i) => first_transition_from(self.states@[i].1.transitions@, c, 0),
            None => None,
        }
    }

    /// The state reached from the start state after reading the first `k`
    /// characters of `input`, if every step has a transition.
    pub open spec fn run(&self, input: Seq<char>, k: nat) -> Option<Seq<char>>
        decreases k,
    {
        if k == 0 {
            Some(self.start_state@)
        } else if k > input.len() {
            None
        } else {
            match self.run(input, (k - 1) as nat) {
                Some(s) => self.step(s, input[k - 1]),
                None => None,
            }
        }
    }

    /// The state named `name` is final.
    pub open spec fn is_final_name(&self, name: Seq<char>) -> bool {
        match find_state(self.states@, name) {
            Some(i) => self.states@[i].1.is_final,
            None => false,
        }
    }

    /// Every state that a run over a prefix of `input` reaches exists.
    pub open spec fn runs_on(&self, input: Seq<char>) -> bool {
        forall|k: nat| k <= input.len() ==> (#[trigger] self.run(input, k) matches Some(s) ==> find_state(self.states@, s) is Some)
    }

    /// A well-formed configuration runs on any input.
    pub proof fn lemma_wf_runs_on(&self, input: Seq<char>)
        requires
            self.wf(),
        ensures
            self.runs_on(input),
    {
        assert forall|k: nat| k <= input.len() implies (#[trigger] self.run(input, k) matches Some(s) ==> find_state(self.states@, s) is Some) by {
            self.lemma_run_exists(input, k);
        }
    }

    /// The state a run reaches exists, when the configuration is well formed.
    pub proof fn lemma_run_exists(&self, input: Seq<char>, k: nat)
        requires
            self.wf(),
        ensures
            self.run(input, k) matches Some(s) ==> find_state(self.states@, s) is Some,
        decreases k,
    {
        if k > 0 && k <= input.len() {
            self.lemma_run_exists(input, (k - 1) as nat);
            match self.run(input, (k - 1) as nat) {
                Some(s0) => {
                    match find_state(self.states@, s0) {
                        Some(i) => {
                            lemma_find_state_from(self.states@, s0, 0);
                            let ts = self.states@[i].1.transitions@;
                            lemma_first_transition_in(ts, input[k - 1], 0);
                            match first_transition_from(ts, input[k - 1], 0) {
                                Some(n) => {
                                    let tj = choose|tj: int| 0 <= tj < ts.len() && ts[tj].next_state@ == n;
                                    assert(find_state(self.states@, self.states@[i].1.transitions@[tj].next_state@) is Some);
                                },
                                None => {},
                            }
                        },
                        None => {},
                    }
                },
                None => {},
            }
        }
    }

    /// The first `k` characters of `input` (at least one) lead to a final state.
    pub open spec fn accepts(&self, input: Seq<char>, k: nat) -> bool {
        &&& 1 <= k <= input.len()
        &&& self.run(input, k) matches Some(s)
        &&& self.is_final_name(s)
    }

    /// Looks up a state by name.
    pub fn lookup_state(&self, name: &str) -> (r: Option<usize>)
        ensures
            match find_state(self.states@, name@) {
                Some(i) => r == Some(i as usize),
                None => r is None,
            },
            r matches Some(i) ==> i < self.states@.len() && self.states@[i as int].0@ == name@
                && find_state(self.states@, name@) == Some(i as int),
    {
        proof { lemma_find_state_from(self.states@, name@, 0); }
        let mut i: usize = 0;
        while i < self.states.len()
            invariant
                i <= self.states@.len(),
                find_state(self.states@, name@) == find_state_from(self.states@, name@, i as int),
            decreases self.states@.len() - i,
        {
            if str_eq(self.states[i].0.as_str(), name) {
                return Some(i);
            }
            i += 1;
        }
        None
    }

    /// Looks up a reserved word by its lower-case spelling.
    pub fn lookup_reserved(&self, key: &str) -> (r: Option<String>)
        ensures
            match find_pair(self.reserved_words@, key@) {
                Some(v) => r matches Some(s) && s@ == v,
                None => r is None,
            },
    {
        let mut i: usize = 0;
        while i < self.reserved_words.len()
            invariant
                i <= self.reserved_words@.len(),
                find_pair(self.reserved_words@, key@) == find_pair_from(self.reserved_words@, key@, i as int),
            decreases self.reserved_words@.len() - i,
        {
            if str_eq(self.reserved_words[i].0.as_str(), key) {
                return Some(self.reserved_words[i].1.clone());
            }
            i += 1;
        }
        None
    }

    /// The target of the first transition of state `si` that accepts `c`.
    fn first_transition(&self, si: usize, c: char) -> (r: Option<String>)
        requires
            si < self.states@.len(),
        ensures
            match first_transition_from(self.states@[si as int].1.transitions@, c, 0) {
                Some(n) => r matches Some(s) && s@ == n,
                None => r is None,
            },
    {
        let ts = &self.states[si].1.transitions;
        let mut j: usize = 0;
        while j < ts.len()
            invariant
                ts@ == self.states@[si as int].1.transitions@,
                j <= ts@.len(),
                first_transition_from(ts@, c, 0) == first_transition_from(ts@, c, j as int),
            decreases ts@.len() - j,
        {
            if PascalLexer::matches_transition_input(ts[j].input.as_str(), c) {
                return Some(ts[j].next_state.clone());
            }
            j += 1;
        }
        None
    }

    /// Runs the DFA on `chars` from position `pos` and gives the last final
    /// state it passed and the text read up to there: the longest prefix
    /// (of at least one character) of the remaining input that ends in a
    /// final state. `None` when no such prefix exists.
    pub fn dfa(&self, chars: &Vec<char>, pos: usize) -> (r: Option<(String, String)>)
        requires
            pos <= chars@.len(),
            self.runs_on(chars@.skip(pos as int)),
        ensures
            ({
                let input = chars@.skip(pos as int);
                match r {
                    Some((s, lex)) => exists|k: nat|
                        #![trigger self.accepts(input, k)]
                        {
                            &&& self.accepts(input, k)
                            &&& self.run(input, k) == Some(s@)
                            &&& lex@ == input.take(k as int)
                            &&& forall|k2: nat| k < k2 <= input.len() ==> !#[trigger] self.accepts(input, k2)
                        },
                    None => forall|k: nat| #![trigger self.accepts(input, k)] !self.accepts(input, k),
                }
            }),
    {
        let ghost input = chars@.skip(pos as int);
        let mut current = self.start_state.clone();
        let mut lexeme = String::new();
        let mut last_final: Option<String> = None;
        let mut lexeme_at_last = String::new();
        let ghost mut k_last: nat = 0;
        let mut j: usize = pos;
        proof { assert(self.run(input, 0) == Some(self.start_state@)); }
        loop
            invariant
                self.runs_on(input),
                pos <= j <= chars@.len(),
                input == chars@.skip(pos as int),
                self.run(input, (j - pos) as nat) == Some(current@),
                lexeme@ == input.take((j - pos) as int),
                find_state(self.states@, current@) is Some,
                match last_final {
                    Some(s) => {
                        &&& self.accepts(input, k_last)
                        &&& k_last <= j - pos
                        &&& self.run(input, k_last) == Some(s@)
                        &&& lexeme_at_last@ == input.take(k_last as int)
                        &&& forall|k2: nat| k_last < k2 <= j - pos ==> !#[trigger] self.accepts(input, k2)
                    },
                    None => forall|k2: nat| 1 <= k2 <= j - pos ==> !#[trigger] self.accepts(input, k2),
                },
            ensures
                match last_final {
                    Some(s) => {
                        &&& self.accepts(input, k_last)
                        &&& self.run(input, k_last) == Some(s@)
                        &&& lexeme_at_last@ == input.take(k_last as int)
                        &&& forall|k2: nat| k_last < k2 <= input.len() ==> !#[trigger] self.accepts(input, k2)
                    },
                    None => forall|k2: nat| #![trigger self.accepts(input, k2)] !self.accepts(input, k2),
                },
            decreases chars@.len() - j,
        {
            let ghost k = (j - pos) as nat;
            if j >= chars.len() {
                assert forall|k2: nat| k < k2 implies !#[trigger] self.accepts(input, k2) by {}
                break;
            }
            let c = chars[j];
            let si = match self.lookup_state(current.as_str()) {
                Some(si) => si,
                None => {
                    assert(false);
                    break;
                }
            };
            proof {
                assert(input.len() == chars@.len() - pos);
                assert(input[k as int] == c);
                assert(self.step(current@, c) == first_transition_from(self.states@[si as int].1.transitions@, c, 0));
                assert(self.run(input, k + 1) == self.step(current@, c));
            }
            match self.first_transition(si, c) {
                Some(next) => {
                    crate::text::push_char(&mut lexeme, c);
                    current = next;
                    j += 1;
                    proof {
                        assert(lexeme@ =~= input.take((j - pos) as int));
                        assert(self.run(input, k + 1) == Some(current@));
                        assert(find_state(self.states@, current@) is Some);
                    }
                    match self.lookup_state(current.as_str()) {
                        Some(ni) => {
                            if self.states[ni].1.is_final {
                                last_final = Some(current.clone());
                                lexeme_at_last = lexeme.clone();
                                proof { k_last = (j - pos) as nat; }
                            }
                        }
                        None => {}
                    }
                }
                None => {
                    proof {
                        assert(self.run(input, k + 1) is None);
                        assert forall|k2: nat| k < k2 <= input.len() implies !#[trigger] self.accepts(input, k2) by {
                            self.lemma_run_stuck(input, k + 1, k2);
                        }
                    }
                    break;
                }
            }
        }
        match last_final {
            Some(s) => Some((s, lexeme_at_last)),
            None => None,
        }
    }

    /// Once the run has no transition, it has none later either.
    pub proof fn lemma_run_stuck(&self, input: Seq<char>, k1: nat, k2: nat)
        requires
            k1 <= k2,
            self.run(input, k1) is None,
        ensures
            self.run(input, k2) is None,
        decreases k2 - k1,
    {
        if k1 < k2 {
            self.lemma_run_stuck(input, k1, (k2 - 1) as nat);
        }
    }
}

/// A state found by name is in range and has that name.
pub proof fn lemma_find_state_from(states: Seq<(String, State)>, name: Seq<char>, i: int)
    requires
        0 <= i,
    ensures
        find_state_from(states, name, i) matches Some(j) ==> i <= j < states.len() && states[j].0@ == name,
    decreases states.len() - i,
{
    if i < states.len() && states[i].0@ != name {
        lemma_find_state_from(states, name, i + 1);
    }
}

/// The first matching transition is one of the transitions.
pub proof fn lemma_first_transition_in(ts: Seq<Transition>, c: char, i: int)
    requires
        0 <= i,
    ensures
        first_transition_from(ts, c, i) matches Some(n) ==> exists|j: int| i <= j < ts.len() && ts[j].next_state@ == n,
    decreases ts.len() - i,
{
    if i < ts.len() && !transition_matches(ts[i].input@, c) {
        lemma_first_transition_in(ts, c, i + 1);
    }
}

/// A step follows the first transition, in the listed order, whose label
/// accepts the character; it has none exactly when no label accepts it.
pub proof fn law_first_matching_transition(ts: Seq<Transition>, c: char, i: int)
    requires
        0 <= i,
    ensures
        first_transition_from(ts, c, i) matches Some(n) ==> exists|j: int|
            #![trigger ts[j]]
            i <= j < ts.len() && ts[j].next_state@ == n && transition_matches(ts[j].input@, c) && forall|k: int|
                i <= k < j ==> !transition_matches(#[trigger] ts[k].input@, c),
        first_transition_from(ts, c, i) is None <==> forall|k: int|
            i <= k < ts.len() ==> !transition_matches(#[trigger] ts[k].input@, c),
    decreases ts.len() - i,
{
    if i < ts.len() {
        law_first_matching_transition(ts, c, i + 1);
        if !transition_matches(ts[i].input@, c) {
            if let Some(n) = first_transition_from(ts, c, i) {
                let j = choose|j: int|
                    #![trigger ts[j]]
                    i + 1 <= j < ts.len() && ts[j].next_state@ == n && transition_matches(ts[j].input@, c) && forall|k: int|
                        i + 1 <= k < j ==> !transition_matches(#[trigger] ts[k].input@, c);
                assert forall|k: int| i <= k < j implies !transition_matches(#[trigger] ts[k].input@, c) by {
                    if k > i {
                        assert(i + 1 <= k < j);
                    }
                }
            }
        } else {
            assert(ts[i].next_state@ == ts[i].next_state@);
        }
    }
}

/// Looking a key up in a list of pairs gives the value of a pair with that
/// key, the first one listed; it gives nothing exactly when no pair has the
/// key.
pub proof fn law_pair_lookup(pairs: Seq<(String, String)>, key: Seq<char>, i: int)
    requires
        0 <= i,
    ensures
        find_pair_from(pairs, key, i) matches Some(v) ==> exists|j: int|
            #![trigger pairs[j]]
            i <= j < pairs.len() && pairs[j].0@ == key && pairs[j].1@ == v && forall|k: int|
                i <= k < j ==> (#[trigger] pairs[k]).0@ != key,
        find_pair_from(pairs, key, i) is None <==> forall|k: int| i <= k < pairs.len() ==> (#[trigger] pairs[k]).0@ != key,
    decreases pairs.len() - i,
{
    if i < pairs.len() {
        law_pair_lookup(pairs, key, i + 1);
        if pairs[i].0@ != key {
            if let Some(v) = find_pair_from(pairs, key, i) {
                let j = choose|j: int|
                    #![trigger pairs[j]]
                    i + 1 <= j < pairs.len() && pairs[j].0@ == key && pairs[j].1@ == v && forall|k: int|
                        i + 1 <= k < j ==> (#[trigger] pairs[k]).0@ != key;
                assert forall|k: int| i <= k < j implies (#[trigger] pairs[k]).0@ != key by {
                    if k > i {
                        assert(i + 1 <= k < j);
                    }
                }
            }
        } else {
            assert(pairs[i] == pairs[i]);
        }
    }
}

impl DfaConfig {
    /// Whether the configuration is well formed: its start state exists,
    /// every transition leads to a state that exists, and every final
    /// state names a token kind.
    pub fn is_well_formed(&self) -> (r: bool)
        ensures
            r == self.wf(),
    {
        let mut b: usize = 0;
        while b < self.states.len()
            invariant
                b <= self.states@.len(),
                forall|x: int, y: int| 0 <= x < y < b ==> #[trigger] self.states@[x].0@ != #[trigger] self.states@[y].0@,
            decreases self.states@.len() - b,
        {
            let mut a: usize = 0;
            while a < b
                invariant
                    a <= b,
                    b < self.states@.len(),
                    forall|x: int| 0 <= x < a ==> #[trigger] self.states@[x].0@ != self.states@[b as int].0@,
                decreases b - a,
            {
                if str_eq(self.states[a].0.as_str(), self.states[b].0.as_str()) {
                    return false;
                }
                a += 1;
            }
            b += 1;
        }
        let mut b: usize = 0;
        while b < self.reserved_words.len()
            invariant
                b <= self.reserved_words@.len(),
                forall|a: int, b2: int| 0 <= a < b2 < self.states@.len() ==> #[trigger] self.states@[a].0@ != #[trigger] self.states@[b2].0@,
                forall|x: int, y: int| 0 <= x < y < b
                    ==> #[trigger] self.reserved_words@[x].0@ != #[trigger] self.reserved_words@[y].0@,
            decreases self.reserved_words@.len() - b,
        {
            let mut a: usize = 0;
            while a < b
                invariant
                    a <= b,
                    b < self.reserved_words@.len(),
                    forall|x: int| 0 <= x < a ==> #[trigger] self.reserved_words@[x].0@ != self.reserved_words@[b as int].0@,
                decreases b - a,
            {
                if str_eq(self.reserved_words[a].0.as_str(), self.reserved_words[b].0.as_str()) {
                    return false;
                }
                a += 1;
            }
            b += 1;
        }
        if self.lookup_state(self.start_state.as_str()).is_none() {
            return false;
        }
        let mut i: usize = 0;
        while i < self.states.len()
            invariant
                i <= self.states@.len(),
                forall|a: int, b2: int| 0 <= a < b2 < self.states@.len() ==> #[trigger] self.states@[a].0@ != #[trigger] self.states@[b2].0@,
                forall|a: int, b2: int| 0 <= a < b2 < self.reserved_words@.len()
                    ==> #[trigger] self.reserved_words@[a].0@ != #[trigger] self.reserved_words@[b2].0@,
                find_state(self.states@, self.start_state@) is Some,
                forall|a: int, b: int|
                    0 <= a < i && 0 <= b < self.states@[a].1.transitions@.len()
                        ==> (#[trigger] find_state(self.states@, self.states@[a].1.transitions@[b].next_state@)) is Some,
                forall|a: int| 0 <= a < i && (#[trigger] self.states@[a]).1.is_final ==> self.states@[a].1.token_type is Some,
            decreases self.states@.len() - i,
        {
            let st = &self.states[i].1;
            if st.is_final && st.token_type.is_none() {
                return false;
            }
            let mut j: usize = 0;
            while j < st.transitions.len()
                invariant
                    i < self.states@.len(),
                    *st == self.states@[i as int].1,
                    j <= st.transitions@.len(),
                    forall|b: int|
                        0 <= b < j ==> (#[trigger] find_state(self.states@, st.transitions@[b].next_state@)) is Some,
                decreases st.transitions@.len() - j,
            {
                if self.lookup_state(st.transitions[j].next_state.as_str()).is_none() {
                    return false;
                }
                j += 1;
            }
            i += 1;
        }
        true
    }
}

} // verus!
