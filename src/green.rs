use vstd::prelude::*;
use rowan::GreenNode;
use rowan::GreenNodeBuilder;
use crate::syntax::SyntaxKind;
use crate::syntax::syntax_ordinal;

verus! {

#[verifier::external_type_specification]
#[verifier::external_body]
pub struct ExGreenNode(rowan::GreenNode);

#[verifier::external_type_specification]
#[verifier::external_body]
pub struct ExGreenNodeBuilder<'cache>(rowan::GreenNodeBuilder<'cache>);

/// One step of the preorder listing of a tree: `(0, kind, text)` for a token,
/// `(1, kind, "")` where a node starts, `(2, 0, "")` where the innermost open
/// node ends. Kinds are raw kind numbers.
pub type TreeEvent = (nat, nat, Seq<char>);

pub open spec fn leaf_event(raw: nat, text: Seq<char>) -> TreeEvent {
    (0, raw, text)
}

pub open spec fn start_event(k: SyntaxKind) -> TreeEvent {
    (1, syntax_ordinal(k), Seq::empty())
}

pub open spec fn finish_event() -> TreeEvent {
    (2, 0, Seq::empty())
}

/// The listings of a sequence of elements, one after another.
pub open spec fn flatten(cs: Seq<Seq<TreeEvent>>) -> Seq<TreeEvent>
    decreases cs.len(),
{
    if cs.len() == 0 {
        Seq::empty()
    } else {
        flatten(cs.drop_last()) + cs.last()
    }
}

/// Bytes in the UTF-8 encoding of a char.
pub open spec fn char_utf8_len(c: char) -> nat {
    let v = c as u32;
    if v < 0x80 {
        1
    } else if v < 0x800 {
        2
    } else if v < 0x10000 {
        3
    } else {
        4
    }
}

/// Bytes in the UTF-8 encoding of a text.
pub open spec fn utf8_len(s: Seq<char>) -> nat
    decreases s.len(),
{
    if s.len() == 0 {
        0
    } else {
        utf8_len(s.drop_last()) + char_utf8_len(s.last())
    }
}

pub proof fn lemma_utf8_len_append(a: Seq<char>, b: Seq<char>)
    ensures
        utf8_len(a + b) == utf8_len(a) + utf8_len(b),
    decreases b.len(),
{
    if b.len() == 0 {
        assert(a + b =~= a);
    } else {
        assert((a + b).drop_last() =~= a + b.drop_last());
        lemma_utf8_len_append(a, b.drop_last());
    }
}

/// The texts of all tokens added to a builder so far, in order.
pub uninterp spec fn builder_text(b: GreenNodeBuilder<'static>) -> Seq<char>;

/// The nodes that a builder holds open, innermost last: each one's raw kind
/// and how many finished elements were pending when it was started.
pub uninterp spec fn builder_parents(b: GreenNodeBuilder<'static>) -> Seq<(nat, nat)>;

/// The finished elements that a builder holds pending, in order, each as
/// its preorder listing.
pub uninterp spec fn builder_children(b: GreenNodeBuilder<'static>) -> Seq<Seq<TreeEvent>>;

/// The text of a green tree: the texts of its tokens in order.
pub uninterp spec fn green_text(n: GreenNode) -> Seq<char>;

/// The preorder listing of a green tree.
pub uninterp spec fn green_events(n: GreenNode) -> Seq<TreeEvent>;

/// Relies on GreenNodeBuilder::new: no open node, nothing pending, no text.
#[verifier::external_body]
pub(crate) fn new_builder() -> (r: GreenNodeBuilder<'static>)
    ensures
        builder_text(r) == Seq::<char>::empty(),
        builder_parents(r) == Seq::<(nat, nat)>::empty(),
        builder_children(r) == Seq::<Seq<TreeEvent>>::empty(),
{
    GreenNodeBuilder::new()
}

/// Relies on GreenNodeBuilder::start_node: pushes an open node of this kind
/// that records the number of pending elements.
#[verifier::external_body]
pub(crate) fn start_node(b: &mut GreenNodeBuilder<'static>, raw: u16)
    ensures
        builder_parents(*final(b)) == builder_parents(*old(b)).push(
            (raw as nat, builder_children(*old(b)).len()),
        ),
        builder_children(*final(b)) == builder_children(*old(b)),
        builder_text(*final(b)) == builder_text(*old(b)),
{
    b.start_node(rowan::SyntaxKind(raw))
}

/// Relies on GreenNodeBuilder::token: appends a token of this kind and text
/// to the pending elements.
#[verifier::external_body]
pub(crate) fn add_token(b: &mut GreenNodeBuilder<'static>, raw: u16, text: &str)
    ensures
        builder_parents(*final(b)) == builder_parents(*old(b)),
        builder_children(*final(b)) == builder_children(*old(b)).push(
            seq![leaf_event(raw as nat, text@)],
        ),
        builder_text(*final(b)) == builder_text(*old(b)) + text@,
{
    b.token(rowan::SyntaxKind(raw), text)
}

/// Relies on GreenNodeBuilder::finish_node: pops the innermost open node and
/// replaces the elements pending since it was started by one node of its
/// kind holding them. It panics where no node is open, and where the node's
/// text does not fit rowan's 32-bit text sizes; the node's text is part of
/// the builder's text.
#[verifier::external_body]
pub(crate) fn finish_node(b: &mut GreenNodeBuilder<'static>)
    requires
        builder_parents(*old(b)).len() > 0,
        utf8_len(builder_text(*old(b))) <= u32::MAX,
        builder_parents(*old(b)).last().1 <= builder_children(*old(b)).len(),
    ensures
        ({
            let (kind, first) = builder_parents(*old(b)).last();
            let cs = builder_children(*old(b));
            &&& builder_parents(*final(b)) == builder_parents(*old(b)).drop_last()
            &&& builder_children(*final(b)) == cs.take(first as int).push(
                seq![(1nat, kind, Seq::<char>::empty())] + flatten(cs.skip(first as int)) + seq![
                    finish_event(),
                ],
            )
        }),
        builder_text(*final(b)) == builder_text(*old(b)),
{
    b.finish_node()
}

/// Relies on GreenNodeBuilder::finish: returns the one pending element, which
/// must be a node (it panics otherwise); every token added lies in it.
#[verifier::external_body]
pub(crate) fn finish_builder(b: GreenNodeBuilder<'static>) -> (r: GreenNode)
    requires
        builder_children(b).len() == 1,
        builder_children(b)[0].len() > 0,
        builder_children(b)[0][0].0 == 1,
    ensures
        green_text(r) == builder_text(b),
        green_events(r) == builder_children(b)[0],
{
    b.finish()
}

/// Where the nodes that a builder holds open start, as a stack: each first
/// pending count is at most the next and at most the number pending.
pub open spec fn stack_ok(ps: Seq<(nat, nat)>, cs: Seq<Seq<TreeEvent>>) -> bool {
    &&& forall|i: int| 0 <= i < ps.len() ==> ps[i].1 <= cs.len()
    &&& forall|i: int, j: int| 0 <= i <= j < ps.len() ==> ps[i].1 <= ps[j].1
}

/// Everything emitted into a builder so far, in preorder: finished elements,
/// and the starts of the nodes still open.
pub open spec fn emitted(ps: Seq<(nat, nat)>, cs: Seq<Seq<TreeEvent>>) -> Seq<TreeEvent>
    decreases ps.len(),
{
    if ps.len() == 0 {
        flatten(cs)
    } else {
        let (kind, first) = ps.last();
        emitted(ps.drop_last(), cs.take(first as int)) + seq![(1nat, kind, Seq::<char>::empty())]
            + flatten(cs.skip(first as int))
    }
}

pub open spec fn builder_emitted(b: GreenNodeBuilder<'static>) -> Seq<TreeEvent> {
    emitted(builder_parents(b), builder_children(b))
}

pub proof fn lemma_flatten_push(cs: Seq<Seq<TreeEvent>>, x: Seq<TreeEvent>)
    ensures
        flatten(cs.push(x)) == flatten(cs) + x,
{
    assert(cs.push(x).drop_last() =~= cs);
}

/// Adding a finished element adds its listing.
pub proof fn lemma_emitted_push(ps: Seq<(nat, nat)>, cs: Seq<Seq<TreeEvent>>, x: Seq<TreeEvent>)
    requires
        stack_ok(ps, cs),
    ensures
        emitted(ps, cs.push(x)) == emitted(ps, cs) + x,
{
    lemma_flatten_push(cs, x);
    if ps.len() > 0 {
        let (kind, first) = ps.last();
        assert(cs.push(x).take(first as int) =~= cs.take(first as int));
        assert(cs.push(x).skip(first as int) =~= cs.skip(first as int).push(x));
        lemma_flatten_push(cs.skip(first as int), x);
        assert(emitted(ps, cs.push(x)) =~= emitted(ps, cs) + x);
    }
}

/// Opening a node adds its start.
pub proof fn lemma_emitted_start(ps: Seq<(nat, nat)>, cs: Seq<Seq<TreeEvent>>, kind: nat)
    ensures
        emitted(ps.push((kind, cs.len())), cs) == emitted(ps, cs) + seq![(1nat, kind, Seq::<char>::empty())],
{
    let ps2 = ps.push((kind, cs.len()));
    assert(ps2.drop_last() =~= ps);
    assert(cs.take(cs.len() as int) =~= cs);
    assert(cs.skip(cs.len() as int) =~= Seq::<Seq<TreeEvent>>::empty());
    assert(flatten(Seq::<Seq<TreeEvent>>::empty()) == Seq::<TreeEvent>::empty());
    assert(emitted(ps2, cs) =~= emitted(ps, cs) + seq![(1nat, kind, Seq::<char>::empty())]);
}

/// Finishing the innermost node adds its end.
pub proof fn lemma_emitted_finish(ps: Seq<(nat, nat)>, cs: Seq<Seq<TreeEvent>>)
    requires
        ps.len() > 0,
        stack_ok(ps, cs),
    ensures
        ({
            let (kind, first) = ps.last();
            let cs2 = cs.take(first as int).push(
                seq![(1nat, kind, Seq::<char>::empty())] + flatten(cs.skip(first as int)) + seq![
                    finish_event(),
                ],
            );
            &&& emitted(ps.drop_last(), cs2) == emitted(ps, cs) + seq![finish_event()]
            &&& stack_ok(ps.drop_last(), cs2)
        }),
{
    let (kind, first) = ps.last();
    let base = cs.take(first as int);
    let x = seq![(1nat, kind, Seq::<char>::empty())] + flatten(cs.skip(first as int)) + seq![
        finish_event(),
    ];
    let rest = ps.drop_last();
    assert forall|i: int| 0 <= i < rest.len() implies rest[i].1 <= base.len() by {
        assert(ps[i].1 <= ps[ps.len() - 1].1);
    }
    lemma_emitted_push(rest, base, x);
    assert(emitted(rest, base.push(x)) =~= emitted(ps, cs) + seq![finish_event()]);
}

} // verus!
