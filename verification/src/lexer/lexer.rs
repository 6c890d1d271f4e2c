//! The Pascal-S lexer: skips whitespace, runs the DFA for the longest
//! token at the current position, resolves reserved words, and reports
//! comments as a start token followed by an end token.
use vstd::prelude::*;
use crate::text::{alphabetic_char, whitespace_char, lowercase_of, decimal_digit, is_alphabetic, is_decimal_digit, push_char, str_eq, string_of};
use crate::lexer::dfa::{DfaConfig, find_state, find_pair};
use crate::lexer::token_types::{Token, TokenType, TokenView, token_type_named};

verus! {

/// The input class of a character: `letter`, `digit`, or the character
/// itself.
pub open spec fn char_category(c: char) -> Seq<char> {
    if alphabetic_char(c) {
        "letter"@
    } else if decimal_digit(c) {
        "digit"@
    } else {
        seq![c]
    }
}

/// A transition labelled `input` accepts `c`: the label is the class of
/// `c`, or `c` itself, or `any_other` and `c` is not a single quote.
pub open spec fn transition_matches(input: Seq<char>, c: char) -> bool {
    ||| input == char_category(c)
    ||| input == seq![c]
    ||| (input == "any_other"@ && c != '\'')
}

impl PascalLexer {
    /// The input class of `c`.
    pub fn get_char_category(c: char) -> (r: String)
        ensures
            r@ == char_category(c),
    {
        if is_alphabetic(c) {
            string_of("letter")
        } else if is_decimal_digit(c) {
            string_of("digit")
        } else {
            let mut s = String::new();
            push_char(&mut s, c);
            proof { assert(s@ =~= seq![c]); }
            s
        }
    }

    /// Whether a transition labelled `input` accepts `c`.
    pub fn matches_transition_input(input: &str, c: char) -> (r: bool)
        ensures
            r == transition_matches(input@, c),
    {
        let category = Self::get_char_category(c);
        let mut single = String::new();
        push_char(&mut single, c);
        proof { assert(single@ =~= seq![c]); }
        if str_eq(input, category.as_str()) || str_eq(input, single.as_str()) {
            true
        } else if str_eq(input, "any_other") && c != '\'' {
            true
        } else {
            false
        }
    }
}

/// The lexer state: the source characters, the position of the next one,
/// the line and column of that position, and a comment-end token that
/// waits to be handed out.
pub struct PascalLexer {
    pub chars: Vec<char>,
    pub pos: usize,
    pub dfa: DfaConfig,
    pub line: usize,
    pub column: usize,
    pub pending_token: Option<Token>,
}

} // verus!

verus! {

/// The line and column of position `n` in `s`: lines and columns count
/// from one; a newline starts a new line at column one.
pub open spec fn position_after(s: Seq<char>, n: nat) -> (nat, nat)
    decreases n,
{
    if n == 0 {
        (1, 1)
    } else {
        let (l, c) = position_after(s, (n - 1) as nat);
        if s[n - 1] == '\n' {
            (l + 1, 1)
        } else {
            (l, c + 1)
        }
    }
}

/// Before the first line break, the line is one and the column is one more
/// than the number of characters read.
pub proof fn law_position_on_first_line(s: Seq<char>, n: nat)
    requires
        n <= s.len(),
        forall|i: int| 0 <= i < n ==> s[i] != '\n',
    ensures
        position_after(s, n) == (1nat, n + 1),
    decreases n,
{
    if n > 0 {
        law_position_on_first_line(s, (n - 1) as nat);
    }
}

/// After a line break at `m`, and before the next one, the line is one
/// more than the line of the break and the column counts the characters
/// since the break, from one.
pub proof fn law_position_after_line_break(s: Seq<char>, m: nat, n: nat)
    requires
        m < n <= s.len(),
        s[m as int] == '\n',
        forall|i: int| m < i < n ==> s[i] != '\n',
    ensures
        position_after(s, n) == (position_after(s, m).0 + 1, (n - m) as nat),
    decreases n,
{
    if n > m + 1 {
        law_position_after_line_break(s, m, (n - 1) as nat);
    }
}

/// Neither line nor column at position `n` exceeds `n + 1`.
pub proof fn lemma_position_bound(s: Seq<char>, n: nat)
    ensures
        1 <= position_after(s, n).0 <= n + 1,
        1 <= position_after(s, n).1 <= n + 1,
    decreases n,
{
    if n > 0 {
        lemma_position_bound(s, (n - 1) as nat);
    }
}

/// The number of bytes that `c` takes in UTF-8.
pub open spec fn utf8_width(c: char) -> nat {
    if (c as u32) < 0x80 {
        1
    } else if (c as u32) < 0x800 {
        2
    } else if (c as u32) < 0x10000 {
        3
    } else {
        4
    }
}

/// The number of bytes that `s` takes in UTF-8.
pub open spec fn utf8_len(s: Seq<char>) -> nat
    decreases s.len(),
{
    if s.len() == 0 {
        0
    } else {
        utf8_len(s.drop_last()) + utf8_width(s.last())
    }
}

/// The first position from `p` on that does not hold whitespace.
pub open spec fn whitespace_end(s: Seq<char>, p: nat) -> nat
    decreases s.len() - p,
{
    if p >= s.len() {
        p
    } else if whitespace_char(s[p as int]) {
        whitespace_end(s, p + 1)
    } else {
        p
    }
}

/// Skipping white space passes over every white-space character from `p`
/// on, tabs and line breaks included, and stops at the first other
/// character or at the end.
pub proof fn law_whitespace_is_skipped(s: Seq<char>, p: nat)
    requires
        p <= s.len(),
    ensures
        p <= whitespace_end(s, p) <= s.len(),
        forall|i: int| p <= i < whitespace_end(s, p) ==> whitespace_char(#[trigger] s[i]),
        whitespace_end(s, p) < s.len() ==> !whitespace_char(s[whitespace_end(s, p) as int]),
    decreases s.len() - p,
{
    if p < s.len() && whitespace_char(s[p as int]) {
        law_whitespace_is_skipped(s, p + 1);
    }
}

/// The white-space characters of ASCII are the space, tab, line feed,
/// vertical tab, form feed and carriage return.
pub proof fn law_ascii_whitespace(c: char)
    requires
        c <= '\u{7f}',
    ensures
        whitespace_char(c) <==> (c == ' ' || c == '\t' || c == '\n' || c == '\u{b}' || c == '\u{c}' || c == '\r'),
{
}

/// The first position from `p` on that holds `}`.
pub open spec fn brace_close(s: Seq<char>, p: nat) -> Option<nat>
    decreases s.len() - p,
{
    if p >= s.len() {
        None
    } else if s[p as int] == '}' {
        Some(p)
    } else {
        brace_close(s, p + 1)
    }
}

/// The first position from `p` on that holds `*` directly followed by `)`.
pub open spec fn star_paren_close(s: Seq<char>, p: nat) -> Option<nat>
    decreases s.len() - p,
{
    if p >= s.len() {
        None
    } else if s[p as int] == '*' && p + 1 < s.len() && s[p + 1int] == ')' {
        Some(p)
    } else {
        star_paren_close(s, p + 1)
    }
}

/// The longest `k` in `1..=n` whose prefix the DFA accepts.
pub open spec fn longest_accept_upto(dfa: DfaConfig, input: Seq<char>, n: nat) -> Option<nat>
    decreases n,
{
    if n == 0 {
        None
    } else if dfa.accepts(input, n) {
        Some(n)
    } else {
        longest_accept_upto(dfa, input, (n - 1) as nat)
    }
}

/// The length of the longest prefix of `input` that the DFA accepts.
pub open spec fn longest_accept(dfa: DfaConfig, input: Seq<char>) -> Option<nat> {
    longest_accept_upto(dfa, input, input.len())
}

/// The token kind for text `lex` read up to the final state `state`: the
/// state's kind, except that an identifier whose lower-case spelling is a
/// reserved word takes the reserved word's kind.
pub open spec fn resolved_type(dfa: DfaConfig, state: Seq<char>, lex: Seq<char>) -> TokenType {
    let tt = dfa.states@[find_state(dfa.states@, state).unwrap()].1.token_type.unwrap()@;
    if tt == "Identifier"@ {
        match find_pair(dfa.reserved_words@, lowercase_of(lex)) {
            Some(v) => token_type_named(v),
            None => token_type_named(tt),
        }
    } else {
        token_type_named(tt)
    }
}

/// Reserved words are recognised whatever their case: two lexemes with the
/// same lower-case spelling read up to the same state get the same kind.
pub proof fn law_token_kind_ignores_case(dfa: DfaConfig, state: Seq<char>, a: Seq<char>, b: Seq<char>)
    requires
        lowercase_of(a) == lowercase_of(b),
    ensures
        resolved_type(dfa, state, a) == resolved_type(dfa, state, b),
{
}

/// A token value at the position `p` of `s`.
pub open spec fn token_at(s: Seq<char>, p: nat, t: TokenType, value: Seq<char>) -> TokenView {
    TokenView { token_type: t, value, line: position_after(s, p).0, column: position_after(s, p).1 }
}

/// One step of the lexer from position `pos` with a waiting token
/// `pending`: the token it hands out, the new position, and the token that
/// waits afterwards.
pub open spec fn lex_step(dfa: DfaConfig, s: Seq<char>, pos: nat, pending: Option<TokenView>) -> (TokenView, nat, Option<TokenView>) {
    match pending {
        Some(t) => (t, pos, None),
        None => {
            let p = whitespace_end(s, pos);
            if p >= s.len() {
                (token_at(s, p, TokenType::Eof, Seq::empty()), p, None)
            } else {
                match longest_accept(dfa, s.skip(p as int)) {
                    None => (token_at(s, p, TokenType::Unknown, seq![s[p as int]]), p + 1, None),
                    Some(k) => {
                        let lex = s.subrange(p as int, (p + k) as int);
                        let state = dfa.run(s.skip(p as int), k).unwrap();
                        let tt = resolved_type(dfa, state, lex);
                        let after = if p + utf8_len(lex) <= s.len() { p + utf8_len(lex) } else { s.len() };
                        let tok = token_at(s, p, tt, lex);
                        if tt == TokenType::CommentStart && lex == "{"@ {
                            match brace_close(s, after) {
                                Some(q) => (tok, q + 1, Some(token_at(s, q, TokenType::CommentEnd, "}"@))),
                                None => (tok, s.len(), None),
                            }
                        } else if tt == TokenType::CommentStart && lex == "(*"@ {
                            match star_paren_close(s, after) {
                                Some(q) => (tok, q + 2, Some(token_at(s, q + 1, TokenType::CommentEnd, "*)"@))),
                                None => (tok, s.len(), None),
                            }
                        } else {
                            (tok, after, None)
                        }
                    },
                }
            }
        },
    }
}

/// The tokens of `n` lexer steps, and the position and waiting token after them.
pub open spec fn lex_steps(dfa: DfaConfig, s: Seq<char>, pos: nat, pending: Option<TokenView>, n: nat) -> (Seq<TokenView>, nat, Option<TokenView>)
    decreases n,
{
    if n == 0 {
        (Seq::empty(), pos, pending)
    } else {
        let (toks, p, w) = lex_steps(dfa, s, pos, pending, (n - 1) as nat);
        let (t, p2, w2) = lex_step(dfa, s, p, w);
        (toks.push(t), p2, w2)
    }
}

/// The token that a step leaves waiting is never an `Eof`, whatever the
/// steps before it left.
pub proof fn lemma_lex_steps_pending(dfa: DfaConfig, s: Seq<char>, pos: nat, pending: Option<TokenView>, n: nat)
    requires
        pending matches Some(t) ==> t.token_type != TokenType::Eof,
    ensures
        lex_steps(dfa, s, pos, pending, n).2 matches Some(t) ==> t.token_type != TokenType::Eof,
    decreases n,
{
    if n > 0 {
        lemma_lex_steps_pending(dfa, s, pos, pending, (n - 1) as nat);
    }
}

/// Once lexing has given its `Eof`, it has reached the end of the text: one
/// more step gives the same `Eof` again, at the same place, and stays there.
/// So a second `get_all_tokens` gives exactly that one `Eof` token.
#[verifier::spinoff_prover]
pub proof fn law_lexing_stays_at_eof(dfa: DfaConfig, s: Seq<char>, pos: nat, pending: Option<TokenView>, n: nat)
    requires
        n >= 1,
        pending matches Some(t) ==> t.token_type != TokenType::Eof,
        lex_steps(dfa, s, pos, pending, n).0.last().token_type == TokenType::Eof,
    ensures
        ({
            let (ts, p, w) = lex_steps(dfa, s, pos, pending, n);
            &&& w is None
            &&& lex_step(dfa, s, p, None) == (ts.last(), p, None::<TokenView>)
        }),
{
    let (ts0, p0, w0) = lex_steps(dfa, s, pos, pending, (n - 1) as nat);
    lemma_lex_steps_pending(dfa, s, pos, pending, (n - 1) as nat);
    let (t, p2, w2) = lex_step(dfa, s, p0, w0);
    assert(lex_steps(dfa, s, pos, pending, n) == (ts0.push(t), p2, w2));
    assert(ts0.push(t).last() == t);
    assert(w0 is None);
    let q = whitespace_end(s, p0);
    if q < s.len() {
        match longest_accept(dfa, s.skip(q as int)) {
            None => {},
            Some(k) => {
                let lex = s.subrange(q as int, (q + k) as int);
                let state = dfa.run(s.skip(q as int), k).unwrap();
                let tt = dfa.states@[find_state(dfa.states@, state).unwrap()].1.token_type.unwrap()@;
                if tt == "Identifier"@ {
                    match find_pair(dfa.reserved_words@, lowercase_of(lex)) {
                        Some(v) => assert(token_type_named(v) != TokenType::Eof),
                        None => assert(token_type_named(tt) != TokenType::Eof),
                    }
                } else {
                    assert(token_type_named(tt) != TokenType::Eof);
                }
                assert(resolved_type(dfa, state, lex) != TokenType::Eof);
            },
        }
        assert(false);
    }
    assert(p2 == q);
    assert(whitespace_end(s, q) == q);
}

/// Once the lexer has given its `Eof`, every further step gives the same
/// `Eof` again and stays where it is: lexing a second time after the end
/// yields just that token.
pub proof fn law_lexing_again_after_eof(
    dfa: DfaConfig,
    s: Seq<char>,
    pos: nat,
    pending: Option<TokenView>,
    n: nat,
    m: nat,
)
    requires
        n >= 1,
        pending matches Some(t) ==> t.token_type != TokenType::Eof,
        lex_steps(dfa, s, pos, pending, n).0.last().token_type == TokenType::Eof,
    ensures
        ({
            let (ts, p, w) = lex_steps(dfa, s, pos, pending, n);
            lex_steps(dfa, s, p, w, m) == (Seq::new(m, |_i: int| ts.last()), p, None::<TokenView>)
        }),
    decreases m,
{
    law_lexing_stays_at_eof(dfa, s, pos, pending, n);
    let (ts, p, w) = lex_steps(dfa, s, pos, pending, n);
    if m > 0 {
        law_lexing_again_after_eof(dfa, s, pos, pending, n, (m - 1) as nat);
        assert(Seq::new((m - 1) as nat, |_i: int| ts.last()).push(ts.last()) =~= Seq::new(m, |_i: int| ts.last()));
    } else {
        assert(Seq::<TokenView>::empty() =~= Seq::new(m, |_i: int| ts.last()));
    }
}

impl PascalLexer {
    /// The lexer's fields agree: the position is in range, the line and
    /// column are those of the position, and the DFA is well formed.
    pub open spec fn wf(&self) -> bool {
        &&& self.dfa.wf()
        &&& self.pos <= self.chars@.len()
        &&& self.chars@.len() < usize::MAX
        &&& position_after(self.chars@, self.pos as nat) == (self.line as nat, self.column as nat)
    }

    /// The waiting token, as a value.
    pub open spec fn pending_view(&self) -> Option<TokenView> {
        match self.pending_token {
            Some(t) => Some(t@),
            None => None,
        }
    }

    /// A lexer at the start of `source`, driven by `dfa`.
    pub fn new(source: &str, dfa: DfaConfig) -> (r: PascalLexer)
        requires
            dfa.wf(),
            source@.len() < usize::MAX,
        ensures
            r.wf(),
            r.chars@ == source@,
            r.pos == 0,
            r.dfa == dfa,
            r.pending_token is None,
    {
        let chars = crate::text::chars_of(source);
        PascalLexer { chars, pos: 0, dfa, line: 1, column: 1, pending_token: None }
    }

    /// Moves past the next character and updates line and column.
    pub fn advance(&mut self) -> (r: Option<char>)
        requires
            old(self).wf(),
        ensures
            final(self).wf(),
            final(self).chars == old(self).chars,
            final(self).dfa == old(self).dfa,
            final(self).pending_token == old(self).pending_token,
            old(self).pos < old(self).chars@.len() ==> r == Some(old(self).chars@[old(self).pos as int])
                && final(self).pos == old(self).pos + 1,
            old(self).pos >= old(self).chars@.len() ==> r is None && final(self).pos == old(self).pos,
    {
        if self.pos < self.chars.len() {
            let c = self.chars[self.pos];
            proof { lemma_position_bound(self.chars@, self.pos as nat); }
            if c == '\n' {
                self.line += 1;
                self.column = 1;
            } else {
                self.column += 1;
            }
            self.pos += 1;
            Some(c)
        } else {
            None
        }
    }

    /// Moves past whitespace.
    pub fn skip_whitespace(&mut self)
        requires
            old(self).wf(),
        ensures
            final(self).wf(),
            final(self).chars == old(self).chars,
            final(self).dfa == old(self).dfa,
            final(self).pending_token == old(self).pending_token,
            final(self).pos == whitespace_end(old(self).chars@, old(self).pos as nat),
    {
        while self.pos < self.chars.len() && crate::text::is_whitespace(self.chars[self.pos])
            invariant
                self.wf(),
                self.chars == old(self).chars,
                self.dfa == old(self).dfa,
                self.pending_token == old(self).pending_token,
                whitespace_end(self.chars@, self.pos as nat) == whitespace_end(old(self).chars@, old(self).pos as nat),
            decreases self.chars@.len() - self.pos,
        {
            self.advance();
        }
    }

    /// The token kind of text `lexeme` that ends in the final state `state_name`.
    pub fn resolve_token_type(&self, state_name: &str, lexeme: &str) -> (r: TokenType)
        requires
            find_state(self.dfa.states@, state_name@) matches Some(i) && self.dfa.states@[i].1.token_type is Some,
        ensures
            r == resolved_type(self.dfa, state_name@, lexeme@),
    {
        let si = match self.dfa.lookup_state(state_name) {
            Some(si) => si,
            None => {
                assert(false);
                0
            },
        };
        let mut tt = match &self.dfa.states[si].1.token_type {
            Some(t) => t.clone(),
            None => {
                assert(false);
                String::new()
            },
        };
        if str_eq(tt.as_str(), "Identifier") {
            let lower = crate::text::to_lowercase(lexeme);
            match self.dfa.lookup_reserved(lower.as_str()) {
                Some(reserved) => {
                    tt = reserved;
                },
                None => {},
            }
        }
        TokenType::from_string(tt.as_str())
    }

    /// Moves past as many characters as `lexeme` has UTF-8 bytes.
    pub fn consume_lexeme(&mut self, lexeme: &str)
        requires
            old(self).wf(),
        ensures
            final(self).wf(),
            final(self).chars == old(self).chars,
            final(self).dfa == old(self).dfa,
            final(self).pending_token == old(self).pending_token,
            final(self).pos == (if old(self).pos + utf8_len(lexeme@) <= old(self).chars@.len() {
                old(self).pos + utf8_len(lexeme@)
            } else {
                old(self).chars@.len() as int
            }),
    {
        let lex = crate::text::chars_of(lexeme);
        let mut i: usize = 0;
        while i < lex.len()
            invariant
                self.wf(),
                self.chars == old(self).chars,
                self.dfa == old(self).dfa,
                self.pending_token == old(self).pending_token,
                lex@ == lexeme@,
                i <= lex@.len(),
                self.pos == (if old(self).pos + utf8_len(lex@.take(i as int)) <= old(self).chars@.len() {
                    old(self).pos + utf8_len(lex@.take(i as int))
                } else {
                    old(self).chars@.len() as int
                }),
            decreases lex@.len() - i,
        {
            let c = lex[i];
            let cu = c as u32;
            let w: usize = if cu < 0x80 { 1 } else if cu < 0x800 { 2 } else if cu < 0x10000 { 3 } else { 4 };
            let mut t: usize = 0;
            let ghost base = self.pos;
            while t < w
                invariant
                    self.wf(),
                    self.chars == old(self).chars,
                    self.dfa == old(self).dfa,
                    self.pending_token == old(self).pending_token,
                    t <= w,
                    base <= self.chars@.len(),
                    self.pos == (if base + t <= self.chars@.len() { base + t } else { self.chars@.len() as int }),
                decreases w - t,
            {
                self.advance();
                t += 1;
            }
            proof {
                assert(lex@.take(i + 1).drop_last() =~= lex@.take(i as int));
                assert(w == utf8_width(c));
            }
            i += 1;
        }
        proof { assert(lex@.take(lex@.len() as int) =~= lex@); }
    }

    /// Reads one character as a token of unknown kind.
    pub fn create_unknown_token(&mut self, start_line: usize, start_col: usize) -> (r: Token)
        requires
            old(self).wf(),
            old(self).pos < old(self).chars@.len(),
        ensures
            final(self).wf(),
            final(self).chars == old(self).chars,
            final(self).dfa == old(self).dfa,
            final(self).pending_token == old(self).pending_token,
            final(self).pos == old(self).pos + 1,
            r@ == (TokenView {
                token_type: TokenType::Unknown,
                value: seq![old(self).chars@[old(self).pos as int]],
                line: start_line as nat,
                column: start_col as nat,
            }),
    {
        let c = match self.advance() {
            Some(c) => c,
            None => {
                assert(false);
                ' '
            },
        };
        let mut s = String::new();
        push_char(&mut s, c);
        proof { assert(s@ =~= seq![c]); }
        Token::new(TokenType::Unknown, s, start_line, start_col)
    }
}


/// `longest_accept_upto` is the largest accepted length up to `n`.
pub proof fn lemma_longest_accept(dfa: DfaConfig, input: Seq<char>, n: nat)
    ensures
        match longest_accept_upto(dfa, input, n) {
            Some(k) => 1 <= k <= n && dfa.accepts(input, k)
                && forall|k2: nat| k < k2 <= n ==> !#[trigger] dfa.accepts(input, k2),
            None => forall|k2: nat| 1 <= k2 <= n ==> !#[trigger] dfa.accepts(input, k2),
        },
    decreases n,
{
    if n > 0 {
        lemma_longest_accept(dfa, input, (n - 1) as nat);
    }
}

/// The longest accepted length is the one the DFA simulation reports.
pub proof fn lemma_longest_is(dfa: DfaConfig, input: Seq<char>, k: nat)
    requires
        dfa.accepts(input, k),
        forall|k2: nat| k < k2 <= input.len() ==> !#[trigger] dfa.accepts(input, k2),
    ensures
        longest_accept(dfa, input) == Some(k),
{
    lemma_longest_accept(dfa, input, input.len());
    match longest_accept(dfa, input) {
        Some(j) => {
            if j < k {
                assert(dfa.accepts(input, k));
            } else if j > k {
                assert(!dfa.accepts(input, j));
            }
        },
        None => {
            assert(!dfa.accepts(input, k));
        },
    }
}

impl PascalLexer {
    /// After a comment start `lexeme`, moves past the comment's content and
    /// its end, and gives the comment-end token; `None` when the comment is
    /// not closed (then the whole input is read) or `lexeme` opens no
    /// comment.
    pub fn skip_comment_content_and_get_end(&mut self, lexeme: &str) -> (r: Option<Token>)
        requires
            old(self).wf(),
        ensures
            final(self).wf(),
            final(self).chars == old(self).chars,
            final(self).dfa == old(self).dfa,
            final(self).pending_token == old(self).pending_token,
            ({
                let s = old(self).chars@;
                let p = old(self).pos as nat;
                if lexeme@ == "{"@ {
                    match brace_close(s, p) {
                        Some(q) => final(self).pos == q + 1 && (r matches Some(t)
                            && t@ == token_at(s, q, TokenType::CommentEnd, "}"@)),
                        None => final(self).pos == s.len() && r is None,
                    }
                } else if lexeme@ == "(*"@ {
                    match star_paren_close(s, p) {
                        Some(q) => final(self).pos == q + 2 && (r matches Some(t)
                            && t@ == token_at(s, q + 1, TokenType::CommentEnd, "*)"@)),
                        None => final(self).pos == s.len() && r is None,
                    }
                } else {
                    final(self).pos == p && r is None
                }
            }),
    {
        if str_eq(lexeme, "{") {
            while self.pos < self.chars.len()
                invariant
                    self.wf(),
                    self.chars == old(self).chars,
                    self.dfa == old(self).dfa,
                    self.pending_token == old(self).pending_token,
                    old(self).pos <= self.pos,
                    brace_close(self.chars@, self.pos as nat) == brace_close(old(self).chars@, old(self).pos as nat),
                    lexeme@ == "{"@,
                decreases self.chars@.len() - self.pos,
            {
                let ghost q = self.pos;
                let ch = self.advance();
                if ch == Some('}') {
                    let mut v = String::new();
                    push_char(&mut v, '}');
                    proof {
                        assert(v@ =~= "}"@) by { reveal_strlit("}"); }
                        assert(self.chars@[q as int] == '}');
                        assert(brace_close(self.chars@, q as nat) == Some(q as nat));
                        assert(position_after(self.chars@, q as nat + 1) == (position_after(self.chars@, q as nat).0,
                            position_after(self.chars@, q as nat).1 + 1));
                        assert(lexeme@ == "{"@);
                    }
                    return Some(Token::new(TokenType::CommentEnd, v, self.line, self.column - 1));
                }
            }
            None
        } else if str_eq(lexeme, "(*") {
            proof { assert("{"@ != "(*"@) by { reveal_strlit("{"); reveal_strlit("(*"); } }
            while self.pos < self.chars.len()
                invariant
                    self.wf(),
                    self.chars == old(self).chars,
                    self.dfa == old(self).dfa,
                    self.pending_token == old(self).pending_token,
                    old(self).pos <= self.pos,
                    star_paren_close(self.chars@, self.pos as nat) == star_paren_close(old(self).chars@, old(self).pos as nat),
                    lexeme@ == "(*"@,
                    lexeme@ != "{"@,
                decreases self.chars@.len() - self.pos,
            {
                let ghost q = self.pos;
                let ch = self.advance();
                if ch == Some('*') {
                    if self.pos < self.chars.len() && self.chars[self.pos] == ')' {
                        let end_line = self.line;
                        let end_col = self.column;
                        self.advance();
                        let mut v = String::new();
                        push_char(&mut v, '*');
                        push_char(&mut v, ')');
                        proof {
                            assert(v@ =~= "*)"@) by { reveal_strlit("*)"); }
                            assert(self.chars@[q as int] == '*');
                            assert(star_paren_close(self.chars@, q as nat) == Some(q as nat));
                            assert(lexeme@ == "(*"@);
                            assert(lexeme@ != "{"@);
                        }
                        return Some(Token::new(TokenType::CommentEnd, v, end_line, end_col));
                    }
                }
            }
            None
        } else {
            None
        }
    }

    /// Hands out the next token: a waiting comment-end token if there is
    /// one; otherwise, after whitespace, `Eof` at the end of the input, the
    /// longest token that the DFA accepts, or one unknown character. A
    /// comment start also moves past the comment and keeps its end token
    /// waiting.
    pub fn next_token(&mut self) -> (r: Option<Token>)
        requires
            old(self).wf(),
        ensures
            final(self).wf(),
            final(self).chars == old(self).chars,
            final(self).dfa == old(self).dfa,
            r matches Some(t) && ({
                let (t2, p2, w2) = lex_step(old(self).dfa, old(self).chars@, old(self).pos as nat, old(self).pending_view());
                &&& t@ == t2
                &&& final(self).pos == p2
                &&& final(self).pending_view() == w2
            }),
    {
        if let Some(token) = self.pending_token.take() {
            return Some(token);
        }
        self.skip_whitespace();
        if self.pos >= self.chars.len() {
            return Some(Token::new(TokenType::Eof, String::new(), self.line, self.column));
        }
        let start_line = self.line;
        let start_col = self.column;
        let ghost p = self.pos;
        let ghost input = self.chars@.skip(p as int);
        proof { self.dfa.lemma_wf_runs_on(self.chars@.skip(self.pos as int)); }
        match self.dfa.dfa(&self.chars, self.pos) {
            Some((final_state_name, lexeme)) => {
                let ghost k = choose|k: nat| #![trigger self.dfa.accepts(input, k)]
                    {
                        &&& self.dfa.accepts(input, k)
                        &&& self.dfa.run(input, k) == Some(final_state_name@)
                        &&& lexeme@ == input.take(k as int)
                        &&& forall|k2: nat| k < k2 <= input.len() ==> !#[trigger] self.dfa.accepts(input, k2)
                    };
                proof {
                    lemma_longest_is(self.dfa, input, k);
                    assert(lexeme@ =~= self.chars@.subrange(p as int, (p + k) as int));
                    assert(self.dfa.is_final_name(final_state_name@));
                    let si = find_state(self.dfa.states@, final_state_name@).unwrap();
                    crate::lexer::dfa::lemma_find_state_from(self.dfa.states@, final_state_name@, 0);
                    assert(0 <= si < self.dfa.states@.len());
                    assert(self.dfa.wf());
                    assert(self.dfa.states@[si].1.is_final);
                    assert(self.dfa.states@[si].1.token_type is Some);
                }
                let token_type = self.resolve_token_type(final_state_name.as_str(), lexeme.as_str());
                self.consume_lexeme(lexeme.as_str());
                if token_type == TokenType::CommentStart {
                    let comment_start = Token::new(token_type, lexeme.clone(), start_line, start_col);
                    if let Some(end) = self.skip_comment_content_and_get_end(lexeme.as_str()) {
                        self.pending_token = Some(end);
                    }
                    return Some(comment_start);
                }
                Some(Token::new(token_type, lexeme, start_line, start_col))
            },
            None => {
                proof { lemma_longest_accept(self.dfa, input, input.len()); }
                Some(self.create_unknown_token(start_line, start_col))
            },
        }
    }
}

/// Skipping whitespace stays in range and does not move back.
pub proof fn lemma_whitespace_end(s: Seq<char>, p: nat)
    requires
        p <= s.len(),
    ensures
        p <= whitespace_end(s, p) <= s.len(),
    decreases s.len() - p,
{
    if p < s.len() && whitespace_char(s[p as int]) {
        lemma_whitespace_end(s, p + 1);
    }
}

/// A closing brace found from `p` on lies in `p..s.len()`.
pub proof fn lemma_brace_close(s: Seq<char>, p: nat)
    ensures
        brace_close(s, p) matches Some(q) ==> p <= q < s.len(),
    decreases s.len() - p,
{
    if p < s.len() && s[p as int] != '}' {
        lemma_brace_close(s, p + 1);
    }
}

/// A closing `*)` found from `p` on starts in `p..s.len() - 1`.
pub proof fn lemma_star_paren_close(s: Seq<char>, p: nat)
    ensures
        star_paren_close(s, p) matches Some(q) ==> p <= q && q + 1 < s.len(),
    decreases s.len() - p,
{
    if p < s.len() && !(s[p as int] == '*' && p + 1 < s.len() && s[p + 1int] == ')') {
        lemma_star_paren_close(s, p + 1);
    }
}

/// A text takes at least as many UTF-8 bytes as it has characters.
pub proof fn lemma_utf8_len(s: Seq<char>)
    ensures
        utf8_len(s) >= s.len(),
    decreases s.len(),
{
    if s.len() > 0 {
        lemma_utf8_len(s.drop_last());
    }
}

/// The measure that every lexer step short of `Eof` makes smaller.
pub open spec fn lex_measure(s: Seq<char>, pos: nat, pending: Option<TokenView>) -> int {
    2 * (s.len() - pos) + if pending is Some { 1int } else { 0int }
}

/// Each lexer step stays in range, and a step that gives no `Eof`
/// shrinks `lex_measure`.
pub proof fn lemma_lex_step_progress(dfa: DfaConfig, s: Seq<char>, pos: nat, pending: Option<TokenView>)
    requires
        pos <= s.len(),
    ensures
        ({
            let (t, p2, w2) = lex_step(dfa, s, pos, pending);
            &&& p2 <= s.len()
            &&& (pending is None && t.token_type == TokenType::Eof) || lex_measure(s, p2, w2) < lex_measure(s, pos, pending)
        }),
{
    if pending is None {
        let p = whitespace_end(s, pos);
        lemma_whitespace_end(s, pos);
        if p < s.len() {
            match longest_accept(dfa, s.skip(p as int)) {
                None => {},
                Some(k) => {
                    lemma_longest_accept(dfa, s.skip(p as int), s.skip(p as int).len());
                    let lex = s.subrange(p as int, (p + k) as int);
                    lemma_utf8_len(lex);
                    let after = if p + utf8_len(lex) <= s.len() { p + utf8_len(lex) } else { s.len() };
                    lemma_brace_close(s, after);
                    lemma_star_paren_close(s, after);
                },
            }
        }
    }
}

impl PascalLexer {
    /// All tokens of the input, up to and including the first `Eof`: the
    /// tokens of successive lexer steps.
    pub fn get_all_tokens(&mut self) -> (tokens: Vec<Token>)
        requires
            old(self).wf(),
        ensures
            final(self).wf(),
            final(self).chars == old(self).chars,
            final(self).dfa == old(self).dfa,
            tokens@.len() >= 1,
            tokens@.last().token_type == TokenType::Eof,
            forall|i: int| 0 <= i < tokens@.len() - 1 ==> (#[trigger] tokens@[i]).token_type != TokenType::Eof,
            ({
                let (ts, p, w) = lex_steps(old(self).dfa, old(self).chars@, old(self).pos as nat,
                    old(self).pending_view(), tokens@.len());
                &&& ts == tokens@.map_values(|t: Token| t@)
                &&& final(self).pos == p
                &&& final(self).pending_view() == w
            }),
    {
        let mut tokens: Vec<Token> = Vec::new();
        loop
            invariant_except_break
                forall|i: int| 0 <= i < tokens@.len() ==> (#[trigger] tokens@[i]).token_type != TokenType::Eof,
            invariant
                self.wf(),
                self.chars == old(self).chars,
                self.dfa == old(self).dfa,
                ({
                    let (ts, p, w) = lex_steps(old(self).dfa, old(self).chars@, old(self).pos as nat,
                        old(self).pending_view(), tokens@.len());
                    &&& ts == tokens@.map_values(|t: Token| t@)
                    &&& self.pos == p
                    &&& self.pending_view() == w
                }),
            ensures
                tokens@.len() >= 1,
                tokens@.last().token_type == TokenType::Eof,
                forall|i: int| 0 <= i < tokens@.len() - 1 ==> (#[trigger] tokens@[i]).token_type != TokenType::Eof,
            decreases lex_measure(self.chars@, self.pos as nat, self.pending_view()),
        {
            proof { lemma_lex_step_progress(self.dfa, self.chars@, self.pos as nat, self.pending_view()); }
            let ghost before = tokens@;
            let token = match self.next_token() {
                Some(t) => t,
                None => {
                    assert(false);
                    break;
                },
            };
            let is_eof = token.token_type == TokenType::Eof;
            tokens.push(token);
            proof {
                assert(tokens@.map_values(|t: Token| t@) =~= before.map_values(|t: Token| t@).push(token@));
            }
            if is_eof {
                break;
            }
        }
        tokens
    }
}
} // verus!
