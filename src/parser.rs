use vstd::prelude::*;
use rowan::GreenNode;
use rowan::GreenNodeBuilder;
use crate::green::TreeEvent;
use crate::green::builder_children;
use crate::green::builder_emitted;
use crate::green::builder_parents;
use crate::green::builder_text;
use crate::green::emitted;
use crate::green::finish_event;
use crate::green::green_events;
use crate::green::green_text;
use crate::green::leaf_event;
use crate::green::stack_ok;
use crate::green::utf8_len;
use crate::green::lemma_utf8_len_append;
use crate::green::start_event;
use crate::green::add_token;
use crate::green::finish_builder;
use crate::green::finish_node;
use crate::green::new_builder;
use crate::green::start_node;
use crate::green::lemma_emitted_finish;
use crate::green::lemma_emitted_push;
use crate::green::lemma_emitted_start;
use crate::lexer::Token;
use crate::lexer::joined;
use crate::lexer::tokens_view;
use crate::lexer::lemma_joined_append;
use crate::syntax::SyntaxKind;
use crate::syntax::TokenKind;
use crate::syntax::syntax_ordinal;
use crate::syntax::syntax_of_token;

verus! {

/// The messages of the syntax errors that the parser reports.
pub open spec fn is_error_message(m: Seq<char>) -> bool {
    m == "Unexpected token"@ || m == "Unexpected EOF"@ || m == "Expected EOF"@
}

/// The messages of a list of errors.
pub open spec fn errs_view(v: Seq<String>) -> Seq<Seq<char>> {
    v.map_values(|s: String| s@)
}

/// The first position at or after `i` that holds no whitespace token.
pub open spec fn ws_end(ts: Seq<Token>, i: int) -> int
    decreases ts.len() - i,
{
    if 0 <= i < ts.len() && ts[i].kind == TokenKind::Whitespace {
        ws_end(ts, i + 1)
    } else {
        i
    }
}

/// The first position at or after `i` that holds no newline token.
pub open spec fn newlines_end(ts: Seq<Token>, i: int) -> int
    decreases ts.len() - i,
{
    if 0 <= i < ts.len() && ts[i].kind == TokenKind::Newline {
        newlines_end(ts, i + 1)
    } else {
        i
    }
}

pub open spec fn is_literal(k: TokenKind) -> bool {
    k == TokenKind::False || k == TokenKind::True || k == TokenKind::Nil || k == TokenKind::Number
        || k == TokenKind::StringLiteral
}

pub open spec fn is_factor_op(k: TokenKind) -> bool {
    k == TokenKind::Slash || k == TokenKind::Star
}

pub open spec fn is_term_op(k: TokenKind) -> bool {
    k == TokenKind::Minus || k == TokenKind::Plus
}

pub open spec fn is_comparison_op(k: TokenKind) -> bool {
    k == TokenKind::Greater || k == TokenKind::GreaterEqual || k == TokenKind::Less || k
        == TokenKind::LessEqual
}

pub open spec fn is_equality_op(k: TokenKind) -> bool {
    k == TokenKind::BangEqual || k == TokenKind::EqualEqual
}

/// The leaf of a token.
pub open spec fn token_leaf(t: Token) -> TreeEvent {
    leaf_event(syntax_ordinal(syntax_of_token(t.kind)), t.text@)
}

/// `ev` followed by the leaves of the tokens from `i` up to `j`.
pub open spec fn leaves(ts: Seq<Token>, i: int, j: int, ev: Seq<TreeEvent>) -> Seq<TreeEvent>
    decreases j - i,
{
    if 0 <= i < j && j <= ts.len() {
        leaves(ts, i + 1, j, ev.push(token_leaf(ts[i])))
    } else {
        ev
    }
}

/// An error node around the token at `j`.
pub open spec fn error_wrap(ts: Seq<Token>, j: int, ev: Seq<TreeEvent>) -> Seq<TreeEvent> {
    ev.push(start_event(SyntaxKind::ErrorUnexpected)).push(token_leaf(ts[j])).push(finish_event())
}

/// What a grammar level does from a state: the position after what it
/// consumes, the errors found by then, and the tree listing emitted by then.
pub type GrammarState = (int, Seq<Seq<char>>, Seq<TreeEvent>);

// Each grammar level below starts at position `i` with the errors `es` and
// the listing `ev` emitted so far.
/// primary: a literal, or `(` expression `)`, after whitespace.
pub open spec fn primary_g(ts: Seq<Token>, i: int, es: Seq<Seq<char>>, ev: Seq<TreeEvent>) -> GrammarState
    decreases ts.len() - i, 1int,
{
    let j = ws_end(ts, i);
    let ev1 = leaves(ts, i, j, ev);
    if !(0 <= i <= j <= ts.len()) {
        (i, es, ev)
    } else if j == ts.len() {
        (j, es.push("Unexpected EOF"@), ev1)
    } else if is_literal(ts[j].kind) {
        (j + 1, es, ev1.push(token_leaf(ts[j])))
    } else if ts[j].kind == TokenKind::LParen {
        let (e0, es2, ev0) = expression_g(ts, j + 1, es, ev1.push(token_leaf(ts[j])));
        let e = ws_end(ts, e0);
        let ev2 = leaves(ts, e0, e, ev0);
        if 0 <= e < ts.len() {
            if ts[e].kind == TokenKind::RParen {
                (e + 1, es2, ev2.push(token_leaf(ts[e])))
            } else {
                (e + 1, es2.push("Unexpected token"@), error_wrap(ts, e, ev2))
            }
        } else {
            (e, es2.push("Unexpected EOF"@), ev2)
        }
    } else {
        (j + 1, es.push("Unexpected token"@), error_wrap(ts, j, ev1))
    }
}

/// unary: a prefix `!` or `-` and a unary, in a `Unary` node; or a primary.
pub open spec fn unary_g(ts: Seq<Token>, i: int, es: Seq<Seq<char>>, ev: Seq<TreeEvent>) -> GrammarState
    decreases ts.len() - i, 2int,
{
    let j = ws_end(ts, i);
    let ev1 = leaves(ts, i, j, ev);
    if !(0 <= i <= j <= ts.len()) {
        (i, es, ev)
    } else if j < ts.len() && (ts[j].kind == TokenKind::Bang || ts[j].kind == TokenKind::Minus) {
        let (k, es2, ev2) = unary_g(
            ts,
            j + 1,
            es,
            ev1.push(start_event(SyntaxKind::Unary)).push(token_leaf(ts[j])),
        );
        (k, es2, ev2.push(finish_event()))
    } else {
        primary_g(ts, j, es, ev1)
    }
}

/// The operator-operand pairs of a factor, from `i` on. An operator counts
/// where it follows whitespace only; the whitespace before and after it
/// belongs to the factor. Otherwise the whitespace is left to the enclosing level.
pub open spec fn factor_rest(ts: Seq<Token>, i: int, es: Seq<Seq<char>>, ev: Seq<TreeEvent>) -> GrammarState
    decreases ts.len() - i, 3int,
{
    let w = ws_end(ts, i);
    if 0 <= i <= w < ts.len() && is_factor_op(ts[w].kind) {
        let w2 = ws_end(ts, w + 1);
        let ev1 = leaves(ts, w + 1, w2, leaves(ts, i, w, ev).push(token_leaf(ts[w])));
        if w + 1 <= w2 <= ts.len() {
            let (k, es2, ev2) = unary_g(ts, w2, es, ev1);
            if i < k <= ts.len() {
                factor_rest(ts, k, es2, ev2)
            } else {
                (k, es2, ev2)
            }
        } else {
            (w2, es, ev1)
        }
    } else {
        (i, es, ev)
    }
}

/// factor: unaries joined by `/` or `*`, in a `Factor` node.
pub open spec fn factor_g(ts: Seq<Token>, i: int, es: Seq<Seq<char>>, ev: Seq<TreeEvent>) -> GrammarState
    decreases ts.len() - i, 4int,
{
    let (j, es2, ev2) = unary_g(ts, i, es, ev.push(start_event(SyntaxKind::Factor)));
    if 0 <= i <= j <= ts.len() {
        let (e, es3, ev3) = factor_rest(ts, j, es2, ev2);
        (e, es3, ev3.push(finish_event()))
    } else {
        (j, es2, ev2)
    }
}

/// The operator-operand pairs of a term, from `i` on. An operator counts
/// where it follows whitespace only; the whitespace before and after it
/// belongs to the term. Otherwise the whitespace is left to the enclosing level.
pub open spec fn term_rest(ts: Seq<Token>, i: int, es: Seq<Seq<char>>, ev: Seq<TreeEvent>) -> GrammarState
    decreases ts.len() - i, 5int,
{
    let w = ws_end(ts, i);
    if 0 <= i <= w < ts.len() && is_term_op(ts[w].kind) {
        let w2 = ws_end(ts, w + 1);
        let ev1 = leaves(ts, w + 1, w2, leaves(ts, i, w, ev).push(token_leaf(ts[w])));
        if w + 1 <= w2 <= ts.len() {
            let (k, es2, ev2) = factor_g(ts, w2, es, ev1);
            if i < k <= ts.len() {
                term_rest(ts, k, es2, ev2)
            } else {
                (k, es2, ev2)
            }
        } else {
            (w2, es, ev1)
        }
    } else {
        (i, es, ev)
    }
}

/// term: factors joined by `-` or `+`, in a `Term` node.
pub open spec fn term_g(ts: Seq<Token>, i: int, es: Seq<Seq<char>>, ev: Seq<TreeEvent>) -> GrammarState
    decreases ts.len() - i, 6int,
{
    let (j, es2, ev2) = factor_g(ts, i, es, ev.push(start_event(SyntaxKind::Term)));
    if 0 <= i <= j <= ts.len() {
        let (e, es3, ev3) = term_rest(ts, j, es2, ev2);
        (e, es3, ev3.push(finish_event()))
    } else {
        (j, es2, ev2)
    }
}

/// The operator-operand pairs of a comparison, from `i` on. An operator counts
/// where it follows whitespace only; the whitespace before and after it
/// belongs to the comparison. Otherwise the whitespace is left to the enclosing level.
pub open spec fn comparison_rest(ts: Seq<Token>, i: int, es: Seq<Seq<char>>, ev: Seq<TreeEvent>) -> GrammarState
    decreases ts.len() - i, 7int,
{
    let w = ws_end(ts, i);
    if 0 <= i <= w < ts.len() && is_comparison_op(ts[w].kind) {
        let w2 = ws_end(ts, w + 1);
        let ev1 = leaves(ts, w + 1, w2, leaves(ts, i, w, ev).push(token_leaf(ts[w])));
        if w + 1 <= w2 <= ts.len() {
            let (k, es2, ev2) = term_g(ts, w2, es, ev1);
            if i < k <= ts.len() {
                comparison_rest(ts, k, es2, ev2)
            } else {
                (k, es2, ev2)
            }
        } else {
            (w2, es, ev1)
        }
    } else {
        (i, es, ev)
    }
}

/// comparison: terms joined by `>`, `>=`, `<` or `<=`, in a `Comparison` node.
pub open spec fn comparison_g(ts: Seq<Token>, i: int, es: Seq<Seq<char>>, ev: Seq<TreeEvent>) -> GrammarState
    decreases ts.len() - i, 8int,
{
    let (j, es2, ev2) = term_g(ts, i, es, ev.push(start_event(SyntaxKind::Comparison)));
    if 0 <= i <= j <= ts.len() {
        let (e, es3, ev3) = comparison_rest(ts, j, es2, ev2);
        (e, es3, ev3.push(finish_event()))
    } else {
        (j, es2, ev2)
    }
}

/// The operator-operand pairs of a equality, from `i` on. An operator counts
/// where it follows whitespace only; the whitespace before and after it
/// belongs to the equality. Otherwise the whitespace is left to the enclosing level.
pub open spec fn equality_rest(ts: Seq<Token>, i: int, es: Seq<Seq<char>>, ev: Seq<TreeEvent>) -> GrammarState
    decreases ts.len() - i, 9int,
{
    let w = ws_end(ts, i);
    if 0 <= i <= w < ts.len() && is_equality_op(ts[w].kind) {
        let w2 = ws_end(ts, w + 1);
        let ev1 = leaves(ts, w + 1, w2, leaves(ts, i, w, ev).push(token_leaf(ts[w])));
        if w + 1 <= w2 <= ts.len() {
            let (k, es2, ev2) = comparison_g(ts, w2, es, ev1);
            if i < k <= ts.len() {
                equality_rest(ts, k, es2, ev2)
            } else {
                (k, es2, ev2)
            }
        } else {
            (w2, es, ev1)
        }
    } else {
        (i, es, ev)
    }
}

/// equality: comparisons joined by `!=` or `==`, in a `Equality` node.
pub open spec fn equality_g(ts: Seq<Token>, i: int, es: Seq<Seq<char>>, ev: Seq<TreeEvent>) -> GrammarState
    decreases ts.len() - i, 10int,
{
    let (j, es2, ev2) = comparison_g(ts, i, es, ev.push(start_event(SyntaxKind::Equality)));
    if 0 <= i <= j <= ts.len() {
        let (e, es3, ev3) = equality_rest(ts, j, es2, ev2);
        (e, es3, ev3.push(finish_event()))
    } else {
        (j, es2, ev2)
    }
}

/// expression: an equality, after whitespace.
pub open spec fn expression_g(ts: Seq<Token>, i: int, es: Seq<Seq<char>>, ev: Seq<TreeEvent>) -> GrammarState
    decreases ts.len() - i, 11int,
{
    let j = ws_end(ts, i);
    if 0 <= i <= j <= ts.len() {
        equality_g(ts, j, es, leaves(ts, i, j, ev))
    } else {
        (j, es, ev)
    }
}

/// The parse of a token sequence: the errors found, in order, and the
/// preorder listing of the tree. A `Root` node holds the expression, the
/// whitespace and newlines after it, and, where anything else follows, one
/// error node holding all of the rest, with `Expected EOF`.
pub open spec fn parse_spec(ts: Seq<Token>) -> (Seq<Seq<char>>, Seq<TreeEvent>) {
    let (e, es, ev) = expression_g(ts, 0, Seq::empty(), seq![start_event(SyntaxKind::Root)]);
    let w = ws_end(ts, e);
    let n = newlines_end(ts, w);
    let ev1 = leaves(ts, w, n, leaves(ts, e, w, ev));
    if n < ts.len() {
        (
            es.push("Expected EOF"@),
            leaves(ts, n, ts.len() as int, ev1.push(start_event(SyntaxKind::ErrorUnexpected))).push(
                finish_event(),
            ).push(finish_event()),
        )
    } else {
        (es, ev1.push(finish_event()))
    }
}

proof fn lemma_ws_end_bounds(ts: Seq<Token>, i: int)
    requires
        0 <= i <= ts.len(),
    ensures
        i <= ws_end(ts, i) <= ts.len(),
    decreases ts.len() - i,
{
    if i < ts.len() && ts[i].kind == TokenKind::Whitespace {
        lemma_ws_end_bounds(ts, i + 1);
    }
}

proof fn lemma_newlines_end_bounds(ts: Seq<Token>, i: int)
    requires
        0 <= i <= ts.len(),
    ensures
        i <= newlines_end(ts, i) <= ts.len(),
    decreases ts.len() - i,
{
    if i < ts.len() && ts[i].kind == TokenKind::Newline {
        lemma_newlines_end_bounds(ts, i + 1);
    }
}

/// The result of parsing: a lossless green tree and the syntax errors found.
pub struct Parse {
    pub green_node: GreenNode,
    pub errors: Vec<String>,
}

struct Parser {
    /// The input tokens, trivia included.
    tokens: Vec<Token>,
    /// The first token not yet added to the tree.
    pos: usize,
    /// The tree in progress.
    builder: GreenNodeBuilder<'static>,
    /// The syntax errors found so far.
    errors: Vec<String>,
}

/// The joined texts of the first `n` tokens.
pub open spec fn prefix_text(ts: Seq<Token>, n: int) -> Seq<char> {
    joined(tokens_view(ts).take(n))
}

proof fn lemma_prefix_text_step(ts: Seq<Token>, n: int)
    requires
        0 <= n < ts.len(),
    ensures
        prefix_text(ts, n + 1) == prefix_text(ts, n) + ts[n].text@,
{
    let v = tokens_view(ts);
    let one = seq![v[n]];
    assert(v.take(n + 1) =~= v.take(n) + one);
    lemma_joined_append(v.take(n), one);
    assert(one.drop_first() =~= Seq::<(TokenKind, Seq<char>)>::empty());
    assert(joined(one.drop_first()) == Seq::<char>::empty());
    assert(joined(one) =~= ts[n].text@);
}

/// The text of the first `n` tokens is no longer than the text of all.
proof fn lemma_prefix_text_bound(ts: Seq<Token>, n: int)
    requires
        0 <= n <= ts.len(),
    ensures
        utf8_len(prefix_text(ts, n)) <= utf8_len(joined(tokens_view(ts))),
{
    let v = tokens_view(ts);
    assert(v =~= v.take(n) + v.skip(n));
    lemma_joined_append(v.take(n), v.skip(n));
    lemma_utf8_len_append(joined(v.take(n)), joined(v.skip(n)));
}

impl Parser {
    spec fn wf(&self) -> bool {
        &&& self.pos <= self.tokens@.len()
        &&& builder_text(self.builder) == prefix_text(self.tokens@, self.pos as int)
        &&& utf8_len(joined(tokens_view(self.tokens@))) <= u32::MAX
        &&& stack_ok(builder_parents(self.builder), builder_children(self.builder))
        &&& forall|i: int| 0 <= i < self.errors@.len() ==> is_error_message(#[trigger] self.errors@[i]@)
    }

    /// The cursor, the errors and the listing emitted so far.
    spec fn state(&self) -> GrammarState {
        (self.pos as int, errs_view(self.errors@), builder_emitted(self.builder))
    }

    /// What every grammar step keeps: the same tokens and open nodes, a cursor
    /// that never moves back.
    spec fn step(&self, next: &Parser) -> bool {
        &&& next.wf()
        &&& next.tokens == self.tokens
        &&& self.pos <= next.pos
        &&& builder_parents(next.builder) == builder_parents(self.builder)
    }

    fn current(&self) -> (r: Option<TokenKind>)
        ensures
            r == (if self.pos < self.tokens@.len() {
                Some(self.tokens@[self.pos as int].kind)
            } else {
                None
            }),
    {
        if self.pos < self.tokens.len() {
            Some(self.tokens[self.pos].kind)
        } else {
            None
        }
    }

    /// Adds the current token to the tree and moves past it.
    fn bump(&mut self)
        requires
            old(self).wf(),
            old(self).pos < old(self).tokens@.len(),
        ensures
            old(self).step(final(self)),
            final(self).pos == old(self).pos + 1,
            final(self).errors@ == old(self).errors@,
            builder_emitted(final(self).builder) == builder_emitted(old(self).builder).push(
                token_leaf(old(self).tokens@[old(self).pos as int]),
            ),
    {
        let n = self.tokens.len();
        let tok = &self.tokens[self.pos];
        let raw = SyntaxKind::from_token(tok.kind).to_raw();
        let ghost leaf = seq![token_leaf(*tok)];
        proof {
            lemma_emitted_push(builder_parents(self.builder), builder_children(self.builder), leaf);
            lemma_prefix_text_step(self.tokens@, self.pos as int);
        }
        add_token(&mut self.builder, raw, tok.text.as_str());
        assert(builder_emitted(self.builder) =~= builder_emitted(old(self).builder).push(
            token_leaf(old(self).tokens@[old(self).pos as int]),
        ));
        self.pos = self.pos + 1;
    }

    fn open_node(&mut self, kind: SyntaxKind)
        requires
            old(self).wf(),
        ensures
            final(self).wf(),
            final(self).tokens == old(self).tokens,
            final(self).pos == old(self).pos,
            final(self).errors@ == old(self).errors@,
            builder_parents(final(self).builder) == builder_parents(old(self).builder).push(
                (syntax_ordinal(kind), builder_children(old(self).builder).len()),
            ),
            builder_emitted(final(self).builder) == builder_emitted(old(self).builder).push(
                start_event(kind),
            ),
    {
        proof {
            lemma_emitted_start(
                builder_parents(self.builder),
                builder_children(self.builder),
                syntax_ordinal(kind),
            );
        }
        start_node(&mut self.builder, kind.to_raw());
        assert(builder_emitted(self.builder) =~= builder_emitted(old(self).builder).push(
            start_event(kind),
        ));
    }

    fn close_node(&mut self)
        requires
            old(self).wf(),
            builder_parents(old(self).builder).len() > 0,
        ensures
            final(self).wf(),
            final(self).tokens == old(self).tokens,
            final(self).pos == old(self).pos,
            final(self).errors@ == old(self).errors@,
            builder_parents(final(self).builder) == builder_parents(old(self).builder).drop_last(),
            builder_children(final(self).builder).len() == builder_parents(old(self).builder).last().1 + 1,
            builder_children(final(self).builder).last().len() > 0,
            builder_children(final(self).builder).last()[0] == (
                1nat,
                builder_parents(old(self).builder).last().0,
                Seq::<char>::empty(),
            ),
            builder_emitted(final(self).builder) == builder_emitted(old(self).builder).push(
                finish_event(),
            ),
    {
        proof {
            lemma_emitted_finish(builder_parents(self.builder), builder_children(self.builder));
            lemma_prefix_text_bound(self.tokens@, self.pos as int);
        }
        finish_node(&mut self.builder);
        assert(builder_emitted(self.builder) =~= builder_emitted(old(self).builder).push(
            finish_event(),
        ));
    }

    fn report(&mut self, msg: &str)
        requires
            old(self).wf(),
            is_error_message(msg@),
        ensures
            old(self).step(final(self)),
            final(self).pos == old(self).pos,
            errs_view(final(self).errors@) == errs_view(old(self).errors@).push(msg@),
            final(self).builder == old(self).builder,
    {
        self.errors.push(msg.to_owned());
        assert(errs_view(self.errors@) =~= errs_view(old(self).errors@).push(msg@));
    }

    /// Adds the whitespace tokens that stand at the cursor to the tree.
    fn skip_ws(&mut self)
        requires
            old(self).wf(),
        ensures
            old(self).step(final(self)),
            final(self).pos as int == ws_end(old(self).tokens@, old(self).pos as int),
            final(self).errors@ == old(self).errors@,
            builder_emitted(final(self).builder) == leaves(
                old(self).tokens@,
                old(self).pos as int,
                final(self).pos as int,
                builder_emitted(old(self).builder),
            ),
    {
        let ghost w = ws_end(self.tokens@, self.pos as int);
        proof {
            lemma_ws_end_bounds(self.tokens@, self.pos as int);
        }
        while self.current() == Some(TokenKind::Whitespace)
            invariant
                old(self).step(self),
                self.pos <= w,
                ws_end(self.tokens@, self.pos as int) == w,
                self.errors@ == old(self).errors@,
                leaves(self.tokens@, self.pos as int, w, builder_emitted(self.builder)) == leaves(
                    old(self).tokens@,
                    old(self).pos as int,
                    w,
                    builder_emitted(old(self).builder),
                ),
            decreases self.tokens@.len() - self.pos,
        {
            proof {
                lemma_ws_end_bounds(self.tokens@, self.pos + 1);
            }
            self.bump();
        }
    }

    /// Adds the newline tokens that stand at the cursor to the tree.
    fn skip_newlines(&mut self)
        requires
            old(self).wf(),
        ensures
            old(self).step(final(self)),
            final(self).pos as int == newlines_end(old(self).tokens@, old(self).pos as int),
            final(self).errors@ == old(self).errors@,
            builder_emitted(final(self).builder) == leaves(
                old(self).tokens@,
                old(self).pos as int,
                final(self).pos as int,
                builder_emitted(old(self).builder),
            ),
    {
        let ghost n = newlines_end(self.tokens@, self.pos as int);
        proof {
            lemma_newlines_end_bounds(self.tokens@, self.pos as int);
        }
        while self.current() == Some(TokenKind::Newline)
            invariant
                old(self).step(self),
                self.pos <= n,
                newlines_end(self.tokens@, self.pos as int) == n,
                self.errors@ == old(self).errors@,
                leaves(self.tokens@, self.pos as int, n, builder_emitted(self.builder)) == leaves(
                    old(self).tokens@,
                    old(self).pos as int,
                    n,
                    builder_emitted(old(self).builder),
                ),
            decreases self.tokens@.len() - self.pos,
        {
            proof {
                lemma_newlines_end_bounds(self.tokens@, self.pos + 1);
            }
            self.bump();
        }
    }

    /// Adds every token from the cursor on to the tree.
    fn bump_rest(&mut self)
        requires
            old(self).wf(),
        ensures
            old(self).step(final(self)),
            final(self).pos == final(self).tokens@.len(),
            final(self).errors@ == old(self).errors@,
            builder_emitted(final(self).builder) == leaves(
                old(self).tokens@,
                old(self).pos as int,
                old(self).tokens@.len() as int,
                builder_emitted(old(self).builder),
            ),
    {
        let ghost len = self.tokens@.len() as int;
        while self.current().is_some()
            invariant
                old(self).step(self),
                self.errors@ == old(self).errors@,
                len == self.tokens@.len(),
                leaves(self.tokens@, self.pos as int, len, builder_emitted(self.builder)) == leaves(
                    old(self).tokens@,
                    old(self).pos as int,
                    len,
                    builder_emitted(old(self).builder),
                ),
            decreases self.tokens@.len() - self.pos,
        {
            self.bump();
        }
    }

    /// Wraps the current token in an error node and reports it.
    fn unexpected(&mut self)
        requires
            old(self).wf(),
            old(self).pos < old(self).tokens@.len(),
        ensures
            old(self).step(final(self)),
            final(self).pos == old(self).pos + 1,
            errs_view(final(self).errors@) == errs_view(old(self).errors@).push("Unexpected token"@),
            builder_emitted(final(self).builder) == error_wrap(
                old(self).tokens@,
                old(self).pos as int,
                builder_emitted(old(self).builder),
            ),
    {
        let ghost outer = builder_parents(self.builder);
        self.open_node(SyntaxKind::ErrorUnexpected);
        self.report("Unexpected token");
        self.bump();
        self.close_node();
        assert(builder_parents(self.builder) =~= outer);
    }
    /// primary: a literal, or an expression in parentheses.
    fn primary(&mut self)
        requires
            old(self).wf(),
        ensures
            old(self).step(final(self)),
            final(self).state() == primary_g(
                old(self).tokens@,
                old(self).pos as int,
                errs_view(old(self).errors@),
                builder_emitted(old(self).builder),
            ),
        decreases old(self).tokens@.len() - old(self).pos, 1nat,
    {
        self.skip_ws();
        match self.current() {
            Some(TokenKind::False) | Some(TokenKind::True) | Some(TokenKind::Nil) | Some(
                TokenKind::Number,
            ) | Some(TokenKind::StringLiteral) => self.bump(),
            Some(TokenKind::LParen) => {
                self.bump();
                self.expression();
                self.skip_ws();
                match self.current() {
                    Some(TokenKind::RParen) => self.bump(),
                    Some(_) => self.unexpected(),
                    None => self.report("Unexpected EOF"),
                }
            },
            Some(_) => self.unexpected(),
            None => self.report("Unexpected EOF"),
        }
    }

    /// unary: a prefix `!` or `-` applied to a unary, or a primary.
    fn unary(&mut self)
        requires
            old(self).wf(),
        ensures
            old(self).step(final(self)),
            final(self).state() == unary_g(
                old(self).tokens@,
                old(self).pos as int,
                errs_view(old(self).errors@),
                builder_emitted(old(self).builder),
            ),
        decreases old(self).tokens@.len() - old(self).pos, 2nat,
    {
        self.skip_ws();
        if matches!(self.current(), Some(TokenKind::Bang) | Some(TokenKind::Minus)) {
            let ghost outer = builder_parents(self.builder);
        self.open_node(SyntaxKind::Unary);
            self.bump();
            self.unary();
            self.close_node();
            assert(builder_parents(self.builder) =~= outer);
        } else {
            self.primary();
        }
    }

    /// The kind of the first token at or after the cursor that is not
    /// whitespace.
    fn peek_past_ws(&self) -> (r: Option<TokenKind>)
        requires
            self.wf(),
        ensures
            ({
                let w = ws_end(self.tokens@, self.pos as int);
                r == (if w < self.tokens@.len() {
                    Some(self.tokens@[w].kind)
                } else {
                    None
                })
            }),
    {
        let n = self.tokens.len();
        let mut j: usize = self.pos;
        while j < n && self.tokens[j].kind == TokenKind::Whitespace
            invariant
                self.pos <= j <= n,
                n == self.tokens@.len(),
                ws_end(self.tokens@, j as int) == ws_end(self.tokens@, self.pos as int),
            decreases n - j,
        {
            j = j + 1;
        }
        if j < n {
            Some(self.tokens[j].kind)
        } else {
            None
        }
    }

    /// factor: unaries joined by `/` or `*`.
    fn factor(&mut self)
        requires
            old(self).wf(),
        ensures
            old(self).step(final(self)),
            final(self).state() == factor_g(
                old(self).tokens@,
                old(self).pos as int,
                errs_view(old(self).errors@),
                builder_emitted(old(self).builder),
            ),
        decreases old(self).tokens@.len() - old(self).pos, 4nat,
    {
        let ghost outer = builder_parents(self.builder);
        self.open_node(SyntaxKind::Factor);
        let ghost inner = builder_parents(self.builder);
        self.unary();
        let ghost target = factor_rest(
            self.tokens@,
            self.pos as int,
            errs_view(self.errors@),
            builder_emitted(self.builder),
        );
        while matches!(self.peek_past_ws(), Some(TokenKind::Slash) | Some(TokenKind::Star))
            invariant
                factor_rest(
                    self.tokens@,
                    self.pos as int,
                    errs_view(self.errors@),
                    builder_emitted(self.builder),
                ) == target,
                old(self).pos <= self.pos,
                self.wf(),
                self.tokens == old(self).tokens,
                builder_parents(self.builder) == inner,
                inner.len() > 0,
            decreases self.tokens@.len() - self.pos,
        {
            self.skip_ws();
            self.bump();
            self.skip_ws();
            self.unary();
        }
        self.close_node();
        assert(builder_parents(self.builder) =~= outer);
    }

    /// term: factors joined by `-` or `+`.
    fn term(&mut self)
        requires
            old(self).wf(),
        ensures
            old(self).step(final(self)),
            final(self).state() == term_g(
                old(self).tokens@,
                old(self).pos as int,
                errs_view(old(self).errors@),
                builder_emitted(old(self).builder),
            ),
        decreases old(self).tokens@.len() - old(self).pos, 6nat,
    {
        let ghost outer = builder_parents(self.builder);
        self.open_node(SyntaxKind::Term);
        let ghost inner = builder_parents(self.builder);
        self.factor();
        let ghost target = term_rest(
            self.tokens@,
            self.pos as int,
            errs_view(self.errors@),
            builder_emitted(self.builder),
        );
        while matches!(self.peek_past_ws(), Some(TokenKind::Minus) | Some(TokenKind::Plus))
            invariant
                term_rest(
                    self.tokens@,
                    self.pos as int,
                    errs_view(self.errors@),
                    builder_emitted(self.builder),
                ) == target,
                old(self).pos <= self.pos,
                self.wf(),
                self.tokens == old(self).tokens,
                builder_parents(self.builder) == inner,
                inner.len() > 0,
            decreases self.tokens@.len() - self.pos,
        {
            self.skip_ws();
            self.bump();
            self.skip_ws();
            self.factor();
        }
        self.close_node();
        assert(builder_parents(self.builder) =~= outer);
    }

    /// comparison: terms joined by `>`, `>=`, `<` or `<=`.
    fn comparison(&mut self)
        requires
            old(self).wf(),
        ensures
            old(self).step(final(self)),
            final(self).state() == comparison_g(
                old(self).tokens@,
                old(self).pos as int,
                errs_view(old(self).errors@),
                builder_emitted(old(self).builder),
            ),
        decreases old(self).tokens@.len() - old(self).pos, 8nat,
    {
        let ghost outer = builder_parents(self.builder);
        self.open_node(SyntaxKind::Comparison);
        let ghost inner = builder_parents(self.builder);
        self.term();
        let ghost target = comparison_rest(
            self.tokens@,
            self.pos as int,
            errs_view(self.errors@),
            builder_emitted(self.builder),
        );
        while matches!(self.peek_past_ws(), Some(TokenKind::Greater) | Some(TokenKind::GreaterEqual) | Some(TokenKind::Less) | Some(TokenKind::LessEqual))
            invariant
                comparison_rest(
                    self.tokens@,
                    self.pos as int,
                    errs_view(self.errors@),
                    builder_emitted(self.builder),
                ) == target,
                old(self).pos <= self.pos,
                self.wf(),
                self.tokens == old(self).tokens,
                builder_parents(self.builder) == inner,
                inner.len() > 0,
            decreases self.tokens@.len() - self.pos,
        {
            self.skip_ws();
            self.bump();
            self.skip_ws();
            self.term();
        }
        self.close_node();
        assert(builder_parents(self.builder) =~= outer);
    }

    /// equality: comparisons joined by `!=` or `==`.
    fn equality(&mut self)
        requires
            old(self).wf(),
        ensures
            old(self).step(final(self)),
            final(self).state() == equality_g(
                old(self).tokens@,
                old(self).pos as int,
                errs_view(old(self).errors@),
                builder_emitted(old(self).builder),
            ),
        decreases old(self).tokens@.len() - old(self).pos, 10nat,
    {
        let ghost outer = builder_parents(self.builder);
        self.open_node(SyntaxKind::Equality);
        let ghost inner = builder_parents(self.builder);
        self.comparison();
        let ghost target = equality_rest(
            self.tokens@,
            self.pos as int,
            errs_view(self.errors@),
            builder_emitted(self.builder),
        );
        while matches!(self.peek_past_ws(), Some(TokenKind::BangEqual) | Some(TokenKind::EqualEqual))
            invariant
                equality_rest(
                    self.tokens@,
                    self.pos as int,
                    errs_view(self.errors@),
                    builder_emitted(self.builder),
                ) == target,
                old(self).pos <= self.pos,
                self.wf(),
                self.tokens == old(self).tokens,
                builder_parents(self.builder) == inner,
                inner.len() > 0,
            decreases self.tokens@.len() - self.pos,
        {
            self.skip_ws();
            self.bump();
            self.skip_ws();
            self.comparison();
        }
        self.close_node();
        assert(builder_parents(self.builder) =~= outer);
    }

    /// expression: an equality, after any leading whitespace.
    fn expression(&mut self)
        requires
            old(self).wf(),
        ensures
            old(self).step(final(self)),
            final(self).state() == expression_g(
                old(self).tokens@,
                old(self).pos as int,
                errs_view(old(self).errors@),
                builder_emitted(old(self).builder),
            ),
        decreases old(self).tokens@.len() - old(self).pos, 11nat,
    {
        self.skip_ws();
        self.equality();
    }
}

/// Parses a token sequence into a green tree rooted at a `Root` node, with
/// the syntax errors found. Parsing never fails: every token, trivia and
/// error tokens included, lands in the tree in order, so the tree's text is
/// the tokens' texts joined; the tree and the errors are those of the
/// grammar, `parse_spec`. The tokens' text must fit in rowan's 32-bit text
/// sizes: at most `u32::MAX` bytes of UTF-8.
#[verifier::rlimit(100)]
pub fn parse(tokens: Vec<Token>) -> (r: Parse)
    requires
        utf8_len(joined(tokens_view(tokens@))) <= u32::MAX,
    ensures
        green_events(r.green_node).len() > 0,
        green_events(r.green_node)[0] == start_event(SyntaxKind::Root),
        green_text(r.green_node) == joined(tokens_view(tokens@)),
        green_events(r.green_node) == parse_spec(tokens@).1,
        errs_view(r.errors@) == parse_spec(tokens@).0,
        forall|i: int| 0 <= i < r.errors@.len() ==> is_error_message(#[trigger] r.errors@[i]@),
{
    let ghost input = tokens@;
    let mut p = Parser { tokens, pos: 0, builder: new_builder(), errors: Vec::new() };
    proof {
        assert(tokens_view(input).take(0) =~= Seq::<(TokenKind, Seq<char>)>::empty());
        assert(prefix_text(input, 0) == Seq::<char>::empty());
        assert(errs_view(p.errors@) =~= Seq::<Seq<char>>::empty());
        assert(builder_emitted(p.builder) == Seq::<TreeEvent>::empty());
    }
    p.open_node(SyntaxKind::Root);
    assert(builder_parents(p.builder) =~= seq![(syntax_ordinal(SyntaxKind::Root), 0nat)]);
    assert(builder_emitted(p.builder) =~= seq![start_event(SyntaxKind::Root)]);
    p.expression();
    p.skip_ws();
    p.skip_newlines();
    if p.current().is_some() {
        p.open_node(SyntaxKind::ErrorUnexpected);
        p.bump_rest();
        p.report("Expected EOF");
        p.close_node();
        assert(builder_parents(p.builder) =~= seq![(syntax_ordinal(SyntaxKind::Root), 0nat)]);
    }
    p.close_node();
    proof {
        let cs = builder_children(p.builder);
        assert(cs.drop_last() =~= Seq::<Seq<TreeEvent>>::empty());
        assert(builder_emitted(p.builder) == cs[0]);
        assert(tokens_view(input).take(input.len() as int) =~= tokens_view(input));
    }
    let green_node = finish_builder(p.builder);
    Parse { green_node, errors: p.errors }
}

} // verus!
