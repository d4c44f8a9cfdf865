//! Noise handshake patterns: the token vocabulary, the `HandshakePattern`
//! value type, and named constructors for the standard patterns.
//!
//! Pattern *validity* (the Noise grammar rules on token placement) is the
//! caller's responsibility and is deliberately not checked here; only the
//! fixed capacities are enforced, as preconditions.

use vstd::prelude::*;
use arrayvec::ArrayVec;

verus! {

use self::Token::{E, EE, ES, S, SE, SS};

/// A token in Noise message patterns.
#[derive(Copy, Clone, PartialEq, Eq, Structural, Debug)]
pub enum Token {
    E,
    S,
    EE,
    ES,
    SE,
    SS,
    PSK,
}

/// Declares `arrayvec::ArrayVec`, the bounded stack-resident vector that
/// backs a pattern's token storage; its values are opaque here and are
/// reached only through the wrappers below.
#[verifier::external_type_specification]
#[verifier::external_body]
#[verifier::reject_recursive_types(T)]
pub struct ExArrayVec<T, const CAP: usize>(ArrayVec<T, CAP>);

/// The tokens held by a bounded pre-message vector, in order.
pub uninterp spec fn pre_msg_tokens(v: ArrayVec<Token, 4>) -> Seq<Token>;

/// The tokens held by a bounded message-pattern vector, in order.
pub uninterp spec fn msg_tokens(v: ArrayVec<Token, 8>) -> Seq<Token>;

/// The message patterns held by a bounded vector of message patterns, each
/// given as its token sequence, in order.
pub uninterp spec fn msg_list(v: ArrayVec<ArrayVec<Token, 8>, 8>) -> Seq<Seq<Token>>;

/// Relies on `ArrayVec::new`: a freshly created vector is empty.
#[verifier::external_body]
fn pre_msg_new() -> (r: ArrayVec<Token, 4>)
    ensures
        pre_msg_tokens(r) == Seq::<Token>::empty(),
{
    ArrayVec::new()
}

/// Relies on `ArrayVec::push`: appends one element; panics only when the
/// vector is already at capacity, which the precondition rules out.
#[verifier::external_body]
fn pre_msg_push(v: &mut ArrayVec<Token, 4>, t: Token)
    requires
        pre_msg_tokens(*old(v)).len() < 4,
    ensures
        pre_msg_tokens(*final(v)) == pre_msg_tokens(*old(v)).push(t),
{
    v.push(t);
}

/// Relies on `ArrayVec::as_slice`: exposes exactly the held elements.
#[verifier::external_body]
fn pre_msg_as_slice(v: &ArrayVec<Token, 4>) -> (r: &[Token])
    ensures
        r@ == pre_msg_tokens(*v),
{
    v.as_slice()
}

/// Relies on `ArrayVec::new`: a freshly created vector is empty.
#[verifier::external_body]
fn msg_new() -> (r: ArrayVec<Token, 8>)
    ensures
        msg_tokens(r) == Seq::<Token>::empty(),
{
    ArrayVec::new()
}

/// Relies on `ArrayVec::push`: appends one element; panics only when the
/// vector is already at capacity, which the precondition rules out.
#[verifier::external_body]
fn msg_push(v: &mut ArrayVec<Token, 8>, t: Token)
    requires
        msg_tokens(*old(v)).len() < 8,
    ensures
        msg_tokens(*final(v)) == msg_tokens(*old(v)).push(t),
{
    v.push(t);
}

/// Relies on `ArrayVec::new`: a freshly created vector is empty.
#[verifier::external_body]
fn msg_list_new() -> (r: ArrayVec<ArrayVec<Token, 8>, 8>)
    ensures
        msg_list(r) == Seq::<Seq<Token>>::empty(),
{
    ArrayVec::new()
}

/// Relies on `ArrayVec::push`: appends one element; panics only when the
/// vector is already at capacity, which the precondition rules out.
#[verifier::external_body]
fn msg_list_push(v: &mut ArrayVec<ArrayVec<Token, 8>, 8>, m: ArrayVec<Token, 8>)
    requires
        msg_list(*old(v)).len() < 8,
    ensures
        msg_list(*final(v)) == msg_list(*old(v)).push(msg_tokens(m)),
{
    v.push(m);
}

/// Relies on `ArrayVec::len`: the number of held elements.
#[verifier::external_body]
fn msg_list_len(v: &ArrayVec<ArrayVec<Token, 8>, 8>) -> (r: usize)
    ensures
        r == msg_list(*v).len(),
{
    v.len()
}

/// Relies on `ArrayVec`'s `Index` impl (through slice indexing): element `i`
/// of the vector; panics only out of bounds, which the precondition rules out.
#[verifier::external_body]
fn msg_list_get(v: &ArrayVec<ArrayVec<Token, 8>, 8>, i: usize) -> (r: &[Token])
    requires
        i < msg_list(*v).len(),
    ensures
        r@ == msg_list(*v)[i as int],
{
    &v[i]
}

/// True iff some message pattern in `msgs` contains a `PSK` token.
pub open spec fn contains_psk(msgs: Seq<Seq<Token>>) -> bool {
    exists|i: int, j: int|
        0 <= i < msgs.len() && 0 <= j < msgs[i].len() && msgs[i][j] == Token::PSK
}

/// A Noise handshake pattern: the two pre-messages, the ordered message
/// patterns, and the pattern's canonical short name.
pub struct HandshakePattern {
    pre_i: ArrayVec<Token, 4>,
    pre_r: ArrayVec<Token, 4>,
    msg_patterns: ArrayVec<ArrayVec<Token, 8>, 8>,
    name: &'static str,
}

impl HandshakePattern {
    /// The initiator's pre-message tokens.
    pub closed spec fn spec_pre_i(&self) -> Seq<Token> {
        pre_msg_tokens(self.pre_i)
    }

    /// The responder's pre-message tokens.
    pub closed spec fn spec_pre_r(&self) -> Seq<Token> {
        pre_msg_tokens(self.pre_r)
    }

    /// The message patterns, each as its token sequence.
    pub closed spec fn spec_msg_patterns(&self) -> Seq<Seq<Token>> {
        msg_list(self.msg_patterns)
    }

    /// The pattern's canonical short name.
    pub closed spec fn spec_name(&self) -> Seq<char> {
        self.name@
    }

    /// Construct a new `HandshakePattern` from pre-message patterns, message
    /// patterns and a name.
    ///
    /// It is the caller's responsibility to ensure that the pattern is
    /// *valid*; only the fixed capacities (at most 4 tokens per pre-message,
    /// at most 8 message patterns of at most 8 tokens each) are demanded, as
    /// preconditions.
    pub fn new(
        pre_i: &[Token],
        pre_r: &[Token],
        msg_patterns: &[&[Token]],
        name: &'static str,
    ) -> (p: HandshakePattern)
        requires
            pre_i@.len() <= 4,
            pre_r@.len() <= 4,
            msg_patterns@.len() <= 8,
            forall|i: int| 0 <= i < msg_patterns@.len() ==> msg_patterns@[i]@.len() <= 8,
        ensures
            p.spec_pre_i() == pre_i@,
            p.spec_pre_r() == pre_r@,
            p.spec_msg_patterns() == msg_patterns@.map_values(|m: &[Token]| m@),
            p.spec_name() == name@,
    {
        let pi = copy_pre_msg(pre_i);
        let pr = copy_pre_msg(pre_r);
        let mut ms = msg_list_new();
        let mut i: usize = 0;
        while i < msg_patterns.len()
            invariant
                i <= msg_patterns@.len() <= 8,
                forall|k: int| 0 <= k < msg_patterns@.len() ==> msg_patterns@[k]@.len() <= 8,
                msg_list(ms) == msg_patterns@.subrange(0, i as int).map_values(
                    |m: &[Token]| m@,
                ),
            decreases msg_patterns@.len() - i,
        {
            let m = copy_msg(msg_patterns[i]);
            msg_list_push(&mut ms, m);
            i = i + 1;
            proof {
                assert(msg_patterns@.subrange(0, i as int).map_values(|m: &[Token]| m@)
                    =~= msg_patterns@.subrange(0, i - 1).map_values(|m: &[Token]| m@).push(
                    msg_patterns@[i - 1]@,
                ));
            }
        }
        proof {
            assert(msg_patterns@.subrange(0, msg_patterns@.len() as int) =~= msg_patterns@);
        }
        HandshakePattern { pre_i: pi, pre_r: pr, msg_patterns: ms, name }
    }

    /// Get the initiator's pre-message tokens.
    pub fn get_pre_i(&self) -> (r: &[Token])
        ensures
            r@ == self.spec_pre_i(),
    {
        pre_msg_as_slice(&self.pre_i)
    }

    /// Get the responder's pre-message tokens.
    pub fn get_pre_r(&self) -> (r: &[Token])
        ensures
            r@ == self.spec_pre_r(),
    {
        pre_msg_as_slice(&self.pre_r)
    }

    /// Get the `i`-th message pattern.
    pub fn get_message_pattern(&self, i: usize) -> (r: &[Token])
        requires
            i < self.spec_msg_patterns().len(),
        ensures
            r@ == self.spec_msg_patterns()[i as int],
    {
        msg_list_get(&self.msg_patterns, i)
    }

    /// Get the number of message patterns.
    pub fn get_message_patterns_len(&self) -> (r: usize)
        ensures
            r == self.spec_msg_patterns().len(),
    {
        msg_list_len(&self.msg_patterns)
    }

    /// Get the pattern's name.
    pub fn get_name(&self) -> (r: &str)
        ensures
            r@ == self.spec_name(),
    {
        self.name
    }

    /// Whether any message pattern of this pattern contains a `PSK` token.
    pub fn has_psk(&self) -> (r: bool)
        ensures
            r == contains_psk(self.spec_msg_patterns()),
    {
        let n = self.get_message_patterns_len();
        let mut i: usize = 0;
        while i < n
            invariant
                n == self.spec_msg_patterns().len(),
                i <= n,
                !(exists|a: int, b: int|
                    0 <= a < i && 0 <= b < self.spec_msg_patterns()[a].len()
                        && self.spec_msg_patterns()[a][b] == Token::PSK),
            decreases n - i,
        {
            let m = self.get_message_pattern(i);
            let mut j: usize = 0;
            while j < m.len()
                invariant
                    m@ == self.spec_msg_patterns()[i as int],
                    i < self.spec_msg_patterns().len(),
                    j <= m@.len(),
                    !(exists|b: int| 0 <= b < j && m@[b] == Token::PSK),
                decreases m@.len() - j,
            {
                let is_psk = match m[j] {
                    Token::PSK => true,
                    _ => false,
                };
                if is_psk {
                    return true;
                }
                j = j + 1;
            }
            i = i + 1;
        }
        false
    }
}

/// Copy a slice of at most 4 tokens into a fresh bounded pre-message vector.
fn copy_pre_msg(tokens: &[Token]) -> (r: ArrayVec<Token, 4>)
    requires
        tokens@.len() <= 4,
    ensures
        pre_msg_tokens(r) == tokens@,
{
    let mut v = pre_msg_new();
    let mut i: usize = 0;
    while i < tokens.len()
        invariant
            i <= tokens@.len() <= 4,
            pre_msg_tokens(v) == tokens@.subrange(0, i as int),
        decreases tokens@.len() - i,
    {
        pre_msg_push(&mut v, tokens[i]);
        i = i + 1;
        proof {
            assert(tokens@.subrange(0, i as int) =~= tokens@.subrange(0, i - 1).push(
                tokens@[i - 1],
            ));
        }
    }
    proof {
        assert(tokens@.subrange(0, tokens@.len() as int) =~= tokens@);
    }
    v
}

/// Copy a slice of at most 8 tokens into a fresh bounded message vector.
fn copy_msg(tokens: &[Token]) -> (r: ArrayVec<Token, 8>)
    requires
        tokens@.len() <= 8,
    ensures
        msg_tokens(r) == tokens@,
{
    let mut v = msg_new();
    let mut i: usize = 0;
    while i < tokens.len()
        invariant
            i <= tokens@.len() <= 8,
            msg_tokens(v) == tokens@.subrange(0, i as int),
        decreases tokens@.len() - i,
    {
        msg_push(&mut v, tokens[i]);
        i = i + 1;
        proof {
            assert(tokens@.subrange(0, i as int) =~= tokens@.subrange(0, i - 1).push(
                tokens@[i - 1],
            ));
        }
    }
    proof {
        assert(tokens@.subrange(0, tokens@.len() as int) =~= tokens@);
    }
    v
}

/// The `Noise_N` pattern.
pub fn noise_n() -> (p: HandshakePattern)
    ensures
        p.spec_pre_i() == Seq::<Token>::empty(),
        p.spec_pre_r() == seq![S],
        p.spec_msg_patterns() == seq![seq![E, ES]],
        p.spec_name() == "N"@,
{
    let p = HandshakePattern::new(&[], &[S], &[&[E, ES]], "N");
    proof {
        assert(p.spec_pre_r() =~= seq![S]);
        assert(p.spec_msg_patterns() =~~= seq![seq![E, ES]]);
    }
    p
}

/// The `Noise_K` pattern.
pub fn noise_k() -> (p: HandshakePattern)
    ensures
        p.spec_pre_i() == seq![S],
        p.spec_pre_r() == seq![S],
        p.spec_msg_patterns() == seq![seq![E, ES, SS]],
        p.spec_name() == "K"@,
{
    let p = HandshakePattern::new(&[S], &[S], &[&[E, ES, SS]], "K");
    proof {
        assert(p.spec_pre_i() =~= seq![S]);
        assert(p.spec_pre_r() =~= seq![S]);
        assert(p.spec_msg_patterns() =~~= seq![seq![E, ES, SS]]);
    }
    p
}

/// The `Noise_X` pattern.
pub fn noise_x() -> (p: HandshakePattern)
    ensures
        p.spec_pre_i() == Seq::<Token>::empty(),
        p.spec_pre_r() == seq![S],
        p.spec_msg_patterns() == seq![seq![E, ES, S, SS]],
        p.spec_name() == "X"@,
{
    let p = HandshakePattern::new(&[], &[S], &[&[E, ES, S, SS]], "X");
    proof {
        assert(p.spec_pre_r() =~= seq![S]);
        assert(p.spec_msg_patterns() =~~= seq![seq![E, ES, S, SS]]);
    }
    p
}

/// The `Noise_NN` pattern.
pub fn noise_nn() -> (p: HandshakePattern)
    ensures
        p.spec_pre_i() == Seq::<Token>::empty(),
        p.spec_pre_r() == Seq::<Token>::empty(),
        p.spec_msg_patterns() == seq![seq![E], seq![E, EE]],
        p.spec_name() == "NN"@,
{
    let p = HandshakePattern::new(&[], &[], &[&[E], &[E, EE]], "NN");
    proof {
        assert(p.spec_msg_patterns() =~~= seq![seq![E], seq![E, EE]]);
    }
    p
}

/// The `Noise_NK` pattern.
pub fn noise_nk() -> (p: HandshakePattern)
    ensures
        p.spec_pre_i() == Seq::<Token>::empty(),
        p.spec_pre_r() == seq![S],
        p.spec_msg_patterns() == seq![seq![E, ES], seq![E, EE]],
        p.spec_name() == "NK"@,
{
    let p = HandshakePattern::new(&[], &[S], &[&[E, ES], &[E, EE]], "NK");
    proof {
        assert(p.spec_pre_r() =~= seq![S]);
        assert(p.spec_msg_patterns() =~~= seq![seq![E, ES], seq![E, EE]]);
    }
    p
}

/// The `Noise_NX` pattern.
pub fn noise_nx() -> (p: HandshakePattern)
    ensures
        p.spec_pre_i() == Seq::<Token>::empty(),
        p.spec_pre_r() == Seq::<Token>::empty(),
        p.spec_msg_patterns() == seq![seq![E], seq![E, EE, S, ES]],
        p.spec_name() == "NX"@,
{
    let p = HandshakePattern::new(&[], &[], &[&[E], &[E, EE, S, ES]], "NX");
    proof {
        assert(p.spec_msg_patterns() =~~= seq![seq![E], seq![E, EE, S, ES]]);
    }
    p
}

/// The `Noise_XN` pattern.
pub fn noise_xn() -> (p: HandshakePattern)
    ensures
        p.spec_pre_i() == Seq::<Token>::empty(),
        p.spec_pre_r() == Seq::<Token>::empty(),
        p.spec_msg_patterns() == seq![seq![E], seq![E, EE], seq![S, SE]],
        p.spec_name() == "XN"@,
{
    let p = HandshakePattern::new(&[], &[], &[&[E], &[E, EE], &[S, SE]], "XN");
    proof {
        assert(p.spec_msg_patterns() =~~= seq![seq![E], seq![E, EE], seq![S, SE]]);
    }
    p
}

/// The `Noise_XK` pattern.
pub fn noise_xk() -> (p: HandshakePattern)
    ensures
        p.spec_pre_i() == Seq::<Token>::empty(),
        p.spec_pre_r() == seq![S],
        p.spec_msg_patterns() == seq![seq![E, ES], seq![E, EE], seq![S, SE]],
        p.spec_name() == "XK"@,
{
    let p = HandshakePattern::new(&[], &[S], &[&[E, ES], &[E, EE], &[S, SE]], "XK");
    proof {
        assert(p.spec_pre_r() =~= seq![S]);
        assert(p.spec_msg_patterns() =~~= seq![seq![E, ES], seq![E, EE], seq![S, SE]]);
    }
    p
}

/// The `Noise_XX` pattern.
pub fn noise_xx() -> (p: HandshakePattern)
    ensures
        p.spec_pre_i() == Seq::<Token>::empty(),
        p.spec_pre_r() == Seq::<Token>::empty(),
        p.spec_msg_patterns() == seq![seq![E], seq![E, EE, S, ES], seq![S, SE]],
        p.spec_name() == "XX"@,
{
    let p = HandshakePattern::new(&[], &[], &[&[E], &[E, EE, S, ES], &[S, SE]], "XX");
    proof {
        assert(p.spec_msg_patterns() =~~= seq![seq![E], seq![E, EE, S, ES], seq![S, SE]]);
    }
    p
}

/// The `Noise_KN` pattern.
pub fn noise_kn() -> (p: HandshakePattern)
    ensures
        p.spec_pre_i() == seq![S],
        p.spec_pre_r() == Seq::<Token>::empty(),
        p.spec_msg_patterns() == seq![seq![E], seq![E, EE, SE]],
        p.spec_name() == "KN"@,
{
    let p = HandshakePattern::new(&[S], &[], &[&[E], &[E, EE, SE]], "KN");
    proof {
        assert(p.spec_pre_i() =~= seq![S]);
        assert(p.spec_msg_patterns() =~~= seq![seq![E], seq![E, EE, SE]]);
    }
    p
}

/// The `Noise_KK` pattern.
pub fn noise_kk() -> (p: HandshakePattern)
    ensures
        p.spec_pre_i() == seq![S],
        p.spec_pre_r() == seq![S],
        p.spec_msg_patterns() == seq![seq![E, ES, SS], seq![E, EE, SE]],
        p.spec_name() == "KK"@,
{
    let p = HandshakePattern::new(&[S], &[S], &[&[E, ES, SS], &[E, EE, SE]], "KK");
    proof {
        assert(p.spec_pre_i() =~= seq![S]);
        assert(p.spec_pre_r() =~= seq![S]);
        assert(p.spec_msg_patterns() =~~= seq![seq![E, ES, SS], seq![E, EE, SE]]);
    }
    p
}

/// The `Noise_KX` pattern.
pub fn noise_kx() -> (p: HandshakePattern)
    ensures
        p.spec_pre_i() == seq![S],
        p.spec_pre_r() == Seq::<Token>::empty(),
        p.spec_msg_patterns() == seq![seq![E], seq![E, EE, SE, S, ES]],
        p.spec_name() == "KX"@,
{
    let p = HandshakePattern::new(&[S], &[], &[&[E], &[E, EE, SE, S, ES]], "KX");
    proof {
        assert(p.spec_pre_i() =~= seq![S]);
        assert(p.spec_msg_patterns() =~~= seq![seq![E], seq![E, EE, SE, S, ES]]);
    }
    p
}

/// The `Noise_IN` pattern.
pub fn noise_in() -> (p: HandshakePattern)
    ensures
        p.spec_pre_i() == Seq::<Token>::empty(),
        p.spec_pre_r() == Seq::<Token>::empty(),
        p.spec_msg_patterns() == seq![seq![E, S], seq![E, EE, SE]],
        p.spec_name() == "IN"@,
{
    let p = HandshakePattern::new(&[], &[], &[&[E, S], &[E, EE, SE]], "IN");
    proof {
        assert(p.spec_msg_patterns() =~~= seq![seq![E, S], seq![E, EE, SE]]);
    }
    p
}

/// The `Noise_IK` pattern.
pub fn noise_ik() -> (p: HandshakePattern)
    ensures
        p.spec_pre_i() == Seq::<Token>::empty(),
        p.spec_pre_r() == seq![S],
        p.spec_msg_patterns() == seq![seq![E, ES, S, SS], seq![E, EE, SE]],
        p.spec_name() == "IK"@,
{
    let p = HandshakePattern::new(&[], &[S], &[&[E, ES, S, SS], &[E, EE, SE]], "IK");
    proof {
        assert(p.spec_pre_r() =~= seq![S]);
        assert(p.spec_msg_patterns() =~~= seq![seq![E, ES, S, SS], seq![E, EE, SE]]);
    }
    p
}

/// The `Noise_IX` pattern.
pub fn noise_ix() -> (p: HandshakePattern)
    ensures
        p.spec_pre_i() == Seq::<Token>::empty(),
        p.spec_pre_r() == Seq::<Token>::empty(),
        p.spec_msg_patterns() == seq![seq![E, S], seq![E, EE, SE, S, ES]],
        p.spec_name() == "IX"@,
{
    let p = HandshakePattern::new(&[], &[], &[&[E, S], &[E, EE, SE, S, ES]], "IX");
    proof {
        assert(p.spec_msg_patterns() =~~= seq![seq![E, S], seq![E, EE, SE, S, ES]]);
    }
    p
}

/// The `Noise_XXfallback` pattern, used when a Noise-Pipes-style protocol
/// degrades from `IK` after a failed early attempt: the responder's ephemeral
/// key is assumed as a pre-message, and the messages mirror `XX`'s second and
/// third messages.
pub fn noise_xx_fallback() -> (p: HandshakePattern)
    ensures
        p.spec_pre_i() == Seq::<Token>::empty(),
        p.spec_pre_r() == seq![E],
        p.spec_msg_patterns() == seq![seq![E, EE, S, SE], seq![S, ES]],
        p.spec_name() == "XXfallback"@,
{
    let p = HandshakePattern::new(&[], &[E], &[&[E, EE, S, SE], &[S, ES]], "XXfallback");
    proof {
        assert(p.spec_pre_r() =~= seq![E]);
        assert(p.spec_msg_patterns() =~~= seq![seq![E, EE, S, SE], seq![S, ES]]);
    }
    p
}

} // verus!
