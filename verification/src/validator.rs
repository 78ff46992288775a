//! The validator: a byte-driven pushdown automaton that recognizes whether a
//! growing byte buffer is a valid JSON prefix, and the completer that turns
//! its state into a repair plan.
//!
//! The automaton is first defined mathematically — [`VerifierModel`] and
//! [`spec_update`] — and the executable [`Verifier`] is proved to follow that
//! definition byte for byte, including the promise that a rejected byte
//! leaves the state untouched.

use vstd::prelude::*;

use crate::table;
use crate::table::{CharacterType, ComplexToken, Token, Transition};
use crate::{Error, Status};

verus! {

/// What the parser expects inside the innermost open container.
///
/// `Key` marks an object whose next token must begin a key, `Object` an
/// object whose current key-value pair has been accepted, and `Array` an
/// array.
#[derive(Debug, Clone, Copy, PartialEq, Eq, Structural)]
pub enum ValueType {
    Key,
    Array,
    Object,
}

/// The mathematical state of a [`Verifier`].
pub struct VerifierModel {
    /// The configured maximum nesting depth.
    pub maximum: nat,
    /// The current parse state.
    pub state: Token,
    /// The syntactic stack: what the parser expects next, one entry per open
    /// container.
    pub nested: Seq<ValueType>,
    /// The structural stack: one entry per open container, with the value of
    /// `last_ok` at the moment the container was opened.
    pub stack: Seq<(ValueType, nat)>,
    /// The count of bytes accepted so far.
    pub length: nat,
    /// The byte offset at which the prefix was most recently known good.
    pub last_ok: nat,
}

/// The state of a freshly constructed verifier.
pub open spec fn spec_init(maximum: nat) -> VerifierModel {
    VerifierModel {
        maximum,
        state: Token::Begin,
        nested: Seq::empty(),
        stack: Seq::empty(),
        length: 0,
        last_ok: 0,
    }
}

/// The structural kind that a syntactic marker belongs to: both `Key` and
/// `Object` mark an object, `Array` an array.
pub open spec fn kind_of(ty: ValueType) -> ValueType {
    match ty {
        ValueType::Key => ValueType::Object,
        ValueType::Object => ValueType::Object,
        ValueType::Array => ValueType::Array,
    }
}

impl VerifierModel {
    /// Well-formedness: the two stacks mirror each other entry by entry,
    /// their depth never exceeds the maximum, and the last-known-good offset
    /// never runs ahead of the byte count.
    pub open spec fn wf(self) -> bool {
        &&& self.maximum >= 1
        &&& self.last_ok <= self.length
        &&& self.nested.len() == self.stack.len()
        &&& self.nested.len() <= self.maximum
        &&& forall|i: int|
            0 <= i < self.stack.len() ==> (#[trigger] self.stack[i]).0 == kind_of(self.nested[i])
    }

    /// The status the automaton reports: valid exactly when a complete value
    /// has been read and no container is open.
    pub open spec fn is_valid(self) -> bool {
        self.state == Token::Okay && self.nested.len() == 0
    }
}

/// The advance primitive: accept one byte, moving to parse state `next`.
///
/// The byte count grows by one; the last-known-good offset moves to the new
/// count when a value just completed (`Okay`), when an object just opened in
/// a value slot, or when an array just opened inside an array.
pub open spec fn apply_state(m: VerifierModel, next: Token) -> VerifierModel {
    let grown: nat = m.length + 1;
    let marked: bool = next == Token::Okay || (next == Token::Object && m.state == Token::Value)
        || (next == Token::Array && m.nested.len() > 0 && m.nested.last() == ValueType::Array);
    VerifierModel {
        length: grown,
        last_ok: if marked {
            grown
        } else {
            m.last_ok
        },
        state: next,
        ..m
    }
}

/// The effect of a structural event on the automaton.
pub open spec fn spec_event(m: VerifierModel, ev: ComplexToken) -> Result<VerifierModel, Error> {
    match ev {
        ComplexToken::BraceOpen => if m.nested.len() < m.maximum {
            Ok(
                apply_state(
                    VerifierModel {
                        nested: m.nested.push(ValueType::Key),
                        stack: m.stack.push((ValueType::Object, m.last_ok)),
                        ..m
                    },
                    Token::Object,
                ),
            )
        } else {
            Err(Error::Exceeded)
        },
        ComplexToken::BracketOpen => if m.nested.len() < m.maximum {
            Ok(
                apply_state(
                    VerifierModel {
                        nested: m.nested.push(ValueType::Array),
                        stack: m.stack.push((ValueType::Array, m.last_ok)),
                        ..m
                    },
                    Token::Array,
                ),
            )
        } else {
            Err(Error::Exceeded)
        },
        ComplexToken::BraceEmptyClose => if m.nested.len() > 0 && m.nested.last() == ValueType::Key
            && m.stack.len() > 0 && m.stack.last().0 == ValueType::Object {
            Ok(
                apply_state(
                    VerifierModel { nested: m.nested.drop_last(), stack: m.stack.drop_last(), ..m },
                    Token::Okay,
                ),
            )
        } else {
            Err(Error::Invalid)
        },
        ComplexToken::BraceClose => if m.nested.len() > 0 && m.nested.last() == ValueType::Object
            && m.stack.len() > 0 && m.stack.last().0 == ValueType::Object {
            Ok(
                apply_state(
                    VerifierModel { nested: m.nested.drop_last(), stack: m.stack.drop_last(), ..m },
                    Token::Okay,
                ),
            )
        } else {
            Err(Error::Invalid)
        },
        ComplexToken::BracketClose => if m.nested.len() > 0 && m.nested.last() == ValueType::Array
            && m.stack.len() > 0 && m.stack.last().0 == ValueType::Array {
            Ok(
                apply_state(
                    VerifierModel { nested: m.nested.drop_last(), stack: m.stack.drop_last(), ..m },
                    Token::Okay,
                ),
            )
        } else {
            Err(Error::Invalid)
        },
        ComplexToken::Quote => if m.nested.len() > 0 && m.nested.last() == ValueType::Key {
            Ok(apply_state(m, Token::Colon))
        } else if m.nested.len() > 0 {
            Ok(apply_state(m, Token::Okay))
        } else {
            Err(Error::Invalid)
        },
        ComplexToken::Comma => if m.nested.len() > 0 && m.nested.last() == ValueType::Object {
            Ok(
                apply_state(
                    VerifierModel {
                        last_ok: m.length,
                        nested: m.nested.drop_last().push(ValueType::Key),
                        ..m
                    },
                    Token::Key,
                ),
            )
        } else if m.nested.len() > 0 && m.nested.last() == ValueType::Array {
            Ok(apply_state(m, Token::Value))
        } else {
            Err(Error::Invalid)
        },
        ComplexToken::Kolon => if m.nested.len() > 0 && m.nested.last() == ValueType::Key {
            Ok(
                apply_state(
                    VerifierModel { nested: m.nested.drop_last().push(ValueType::Object), ..m },
                    Token::Value,
                ),
            )
        } else {
            Err(Error::Invalid)
        },
    }
}

/// The effect of feeding one byte to the automaton: either the next state,
/// or the error on which the state is left untouched.
///
/// Bytes of 128 and above are treated as UTF-8 continuations: the current
/// parse state is re-applied and the byte is accepted wherever it stands.
pub open spec fn spec_update(m: VerifierModel, b: u8) -> Result<VerifierModel, Error> {
    if b >= 128 {
        Ok(apply_state(m, m.state))
    } else {
        let c = table::char_class(b);
        if c == CharacterType::Error {
            Err(Error::Invalid)
        } else {
            match table::spec_transition(m.state, c) {
                Transition::Error => Err(Error::Invalid),
                Transition::Simple(next) => Ok(apply_state(m, next)),
                Transition::Complex(ev) => spec_event(m, ev),
            }
        }
    }
}

/// Every accepted byte preserves well-formedness, keeps the configured
/// maximum, and counts: the byte count grows by exactly one.
///
/// This carries the depth bound on both stacks and the bound of the
/// last-known-good offset by the byte count across every reachable state.
pub proof fn lemma_update_preserves_wf(m: VerifierModel, b: u8)
    requires
        m.wf(),
    ensures
        (match spec_update(m, b) {
            Ok(m2) => m2.wf() && m2.maximum == m.maximum && m2.length == m.length + 1,
            Err(_) => true,
        }),
{
    match spec_update(m, b) {
        Ok(m2) => {
            assert forall|i: int| 0 <= i < m2.stack.len() implies (#[trigger] m2.stack[i]).0
                == kind_of(m2.nested[i]) by {
                if i < m.stack.len() {
                    assert(m.stack[i].0 == kind_of(m.nested[i]));
                }
            }
        },
        Err(_) => {},
    }
}

/// The state and outcome of feeding a byte sequence left to right: the
/// state after the last accepted byte, and the error of the first rejected
/// byte, if any. Feeding stops at the first rejection.
pub open spec fn spec_feed(m: VerifierModel, s: Seq<u8>) -> (VerifierModel, Result<(), Error>)
    decreases s.len(),
{
    if s.len() == 0 {
        (m, Ok(()))
    } else {
        match spec_update(m, s[0]) {
            Ok(m2) => spec_feed(m2, s.drop_first()),
            Err(e) => (m, Err(e)),
        }
    }
}

/// The accepted prefix of a byte sequence: the bytes up to, and not
/// including, the first one the automaton rejects.
pub open spec fn spec_accepted(m: VerifierModel, s: Seq<u8>) -> Seq<u8>
    decreases s.len(),
{
    if s.len() == 0 {
        Seq::empty()
    } else {
        match spec_update(m, s[0]) {
            Ok(m2) => seq![s[0]] + spec_accepted(m2, s.drop_first()),
            Err(_) => Seq::empty(),
        }
    }
}

/// An accepted byte grows the byte count by exactly one, whatever the byte
/// and the state.
pub proof fn lemma_update_grows_length(m: VerifierModel, b: u8)
    ensures
        (match spec_update(m, b) {
            Ok(m2) => m2.length == m.length + 1,
            Err(_) => true,
        }),
{
}

/// The byte count counts the bytes fed successfully: a feed grows it by
/// exactly the length of the accepted prefix.
pub proof fn lemma_length_counts_accepted(m: VerifierModel, s: Seq<u8>)
    ensures
        spec_feed(m, s).0.length == m.length + spec_accepted(m, s).len(),
    decreases s.len(),
{
    if s.len() > 0 {
        match spec_update(m, s[0]) {
            Ok(m2) => {
                lemma_update_grows_length(m, s[0]);
                lemma_length_counts_accepted(m2, s.drop_first());
            },
            Err(_) => {},
        }
    }
}

/// Prefix stability: when a whole byte sequence is accepted, the accepted
/// prefix is that sequence itself, byte for byte.
pub proof fn lemma_prefix_stability(m: VerifierModel, s: Seq<u8>)
    requires
        spec_feed(m, s).1 is Ok,
    ensures
        spec_accepted(m, s) == s,
    decreases s.len(),
{
    if s.len() == 0 {
        assert(spec_accepted(m, s) =~= s);
    } else {
        match spec_update(m, s[0]) {
            Ok(m2) => {
                lemma_prefix_stability(m2, s.drop_first());
                assert(seq![s[0]] + s.drop_first() =~= s);
            },
            Err(_) => {},
        }
    }
}

/// A feed preserves well-formedness and the configured maximum.
pub proof fn lemma_feed_preserves_wf(m: VerifierModel, s: Seq<u8>)
    requires
        m.wf(),
    ensures
        spec_feed(m, s).0.wf(),
        spec_feed(m, s).0.maximum == m.maximum,
    decreases s.len(),
{
    if s.len() > 0 {
        match spec_update(m, s[0]) {
            Ok(m2) => {
                lemma_update_preserves_wf(m, s[0]);
                lemma_feed_preserves_wf(m2, s.drop_first());
            },
            Err(_) => {},
        }
    }
}

/// The parse states that stand inside a string literal.
pub open spec fn is_string_state(t: Token) -> bool {
    match t {
        Token::String | Token::Escape | Token::U1 | Token::U2 | Token::U3 | Token::U4 => true,
        _ => false,
    }
}

/// The parse states that stand inside a number or a keyword literal.
pub open spec fn is_token_state(t: Token) -> bool {
    match t {
        Token::Minus | Token::Zero | Token::Integer | Token::Fraction1 | Token::Fraction2
        | Token::Exponent1 | Token::Exponent2 | Token::Exponent3 | Token::TrueTr
        | Token::TrueTru | Token::TrueTrue | Token::FalseFa | Token::FalseFal
        | Token::FalseFals | Token::FalseFalse | Token::NullNu | Token::NullNul
        | Token::NullNull => true,
        _ => false,
    }
}

impl VerifierModel {
    /// What holds of every state a fresh verifier can reach: the parse
    /// state and the top of the syntactic stack agree, and a `Key` marker
    /// stands only at the top.
    pub open spec fn reachable(self) -> bool {
        &&& self.wf()
        &&& forall|i: int| 0 <= i < self.nested.len() - 1 ==> self.nested[i] != ValueType::Key
        &&& (self.state == Token::Begin ==> self.nested.len() == 0)
        &&& ((self.state == Token::Object || self.state == Token::Key || self.state
            == Token::Colon) ==> self.nested.len() > 0 && self.nested.last() == ValueType::Key)
        &&& (self.state == Token::Value ==> self.nested.len() > 0 && self.nested.last()
            != ValueType::Key)
        &&& (self.state == Token::Array ==> self.nested.len() > 0 && self.nested.last()
            == ValueType::Array)
        &&& (is_string_state(self.state) ==> self.nested.len() > 0)
        &&& (is_token_state(self.state) ==> self.nested.len() > 0 && self.nested.last()
            != ValueType::Key)
        &&& (self.state == Token::Okay && self.nested.len() > 0 ==> self.nested.last()
            != ValueType::Key)
        &&& (self.state == Token::Okay ==> self.last_ok == self.length)
        &&& (is_token_state(self.state) ==> self.last_ok < self.length)
        &&& (self.state == Token::Begin ==> self.last_ok == 0)
    }
}

/// Every accepted byte leads from a reachable state to a reachable state.
pub proof fn lemma_update_preserves_reachable(m: VerifierModel, b: u8)
    requires
        m.reachable(),
    ensures
        (match spec_update(m, b) {
            Ok(m2) => m2.reachable(),
            Err(_) => true,
        }),
{
    lemma_update_preserves_wf(m, b);
    match spec_update(m, b) {
        Ok(m2) => {
            assert forall|i: int| 0 <= i < m2.nested.len() - 1 implies m2.nested[i]
                != ValueType::Key by {
                if i < m.nested.len() - 1 {
                    assert(m.nested[i] != ValueType::Key);
                }
            }
        },
        Err(_) => {},
    }
}

/// A feed leads from a reachable state to a reachable state.
pub proof fn lemma_feed_preserves_reachable(m: VerifierModel, s: Seq<u8>)
    requires
        m.reachable(),
    ensures
        spec_feed(m, s).0.reachable(),
    decreases s.len(),
{
    if s.len() > 0 {
        match spec_update(m, s[0]) {
            Ok(m2) => {
                lemma_update_preserves_reachable(m, s[0]);
                lemma_feed_preserves_reachable(m2, s.drop_first());
            },
            Err(_) => {},
        }
    }
}

/// One step of a feed: feeding a non-empty sequence whose first byte is
/// accepted goes on from the new state with the rest.
pub proof fn lemma_feed_step(m: VerifierModel, s: Seq<u8>, m2: VerifierModel)
    requires
        s.len() > 0,
        spec_update(m, s[0]) == Ok::<VerifierModel, Error>(m2),
    ensures
        spec_feed(m, s) == spec_feed(m2, s.drop_first()),
{
}

/// Feeds compose: feeding a concatenation whose first part is wholly
/// accepted is feeding the first part, then the second.
pub proof fn lemma_feed_append(m: VerifierModel, a: Seq<u8>, b: Seq<u8>)
    requires
        spec_feed(m, a).1 is Ok,
    ensures
        spec_feed(m, a + b) == spec_feed(spec_feed(m, a).0, b),
    decreases a.len(),
{
    if a.len() == 0 {
        assert(a + b =~= b);
    } else {
        match spec_update(m, a[0]) {
            Ok(m2) => {
                assert((a + b)[0] == a[0]);
                assert((a + b).drop_first() =~= a.drop_first() + b);
                lemma_feed_append(m2, a.drop_first(), b);
            },
            Err(_) => {},
        }
    }
}

/// The parse states from which a closing bracket is accepted directly: a
/// completed value, or a number past its first digit.
pub open spec fn closable(t: Token) -> bool {
    match t {
        Token::Okay | Token::Zero | Token::Integer | Token::Fraction2 | Token::Exponent3 => true,
        _ => false,
    }
}

/// Feeding the completer's literal suffix from a state that needs no
/// rewind finishes the token in flight: every byte is accepted, the stacks
/// are untouched, and the state that remains takes closing brackets.
pub proof fn lemma_literal_completion(m: VerifierModel)
    requires
        m.reachable(),
        !m.is_valid(),
        spec_rewind(m) is None,
    ensures
        ({
            let f = spec_feed(m, spec_literal_suffix(m));
            &&& f.1 is Ok
            &&& f.0.reachable()
            &&& closable(f.0.state)
            &&& f.0.nested == m.nested
            &&& f.0.stack == m.stack
            &&& (f.0.stack.len() == 0 ==> f.0.state == Token::Okay)
        }),
    decreases spec_literal_suffix(m).len(),
{
    let s = spec_literal_suffix(m);
    match m.state {
        Token::Integer => {
            assert(s =~= Seq::<u8>::empty());
        },
        Token::String => {
            // The closing quote of a value string: the top marker is not a
            // key, so the quote completes a value.
            let m2 = apply_state(m, Token::Okay);
            assert(spec_update(m, 34u8) == Ok::<VerifierModel, Error>(m2));
            lemma_feed_step(m, s, m2);
            assert(s.drop_first() =~= Seq::<u8>::empty());
            lemma_update_preserves_reachable(m, 34u8);
        },
        Token::TrueTrue | Token::FalseFalse => {
            let m2 = apply_state(m, Token::Okay);
            assert(spec_update(m, 101u8) == Ok::<VerifierModel, Error>(m2));
            lemma_feed_step(m, s, m2);
            assert(s.drop_first() =~= Seq::<u8>::empty());
            lemma_update_preserves_reachable(m, 101u8);
        },
        Token::NullNull => {
            let m2 = apply_state(m, Token::Okay);
            assert(spec_update(m, 108u8) == Ok::<VerifierModel, Error>(m2));
            lemma_feed_step(m, s, m2);
            assert(s.drop_first() =~= Seq::<u8>::empty());
            lemma_update_preserves_reachable(m, 108u8);
        },
        Token::NullNu => {
            let m2 = apply_state(m, Token::NullNul);
            assert(spec_update(m, 117u8) == Ok::<VerifierModel, Error>(m2));
            lemma_feed_step(m, s, m2);
            assert(s.drop_first() =~= spec_literal_suffix(m2));
            lemma_update_preserves_reachable(m, 117u8);
            lemma_literal_completion(m2);
        },
        Token::NullNul => {
            let m2 = apply_state(m, Token::NullNull);
            assert(spec_update(m, 108u8) == Ok::<VerifierModel, Error>(m2));
            lemma_feed_step(m, s, m2);
            assert(s.drop_first() =~= spec_literal_suffix(m2));
            lemma_update_preserves_reachable(m, 108u8);
            lemma_literal_completion(m2);
        },
        Token::TrueTr => {
            let m2 = apply_state(m, Token::TrueTru);
            assert(spec_update(m, 114u8) == Ok::<VerifierModel, Error>(m2));
            lemma_feed_step(m, s, m2);
            assert(s.drop_first() =~= spec_literal_suffix(m2));
            lemma_update_preserves_reachable(m, 114u8);
            lemma_literal_completion(m2);
        },
        Token::TrueTru => {
            let m2 = apply_state(m, Token::TrueTrue);
            assert(spec_update(m, 117u8) == Ok::<VerifierModel, Error>(m2));
            lemma_feed_step(m, s, m2);
            assert(s.drop_first() =~= spec_literal_suffix(m2));
            lemma_update_preserves_reachable(m, 117u8);
            lemma_literal_completion(m2);
        },
        Token::FalseFa => {
            let m2 = apply_state(m, Token::FalseFal);
            assert(spec_update(m, 97u8) == Ok::<VerifierModel, Error>(m2));
            lemma_feed_step(m, s, m2);
            assert(s.drop_first() =~= spec_literal_suffix(m2));
            lemma_update_preserves_reachable(m, 97u8);
            lemma_literal_completion(m2);
        },
        Token::FalseFal => {
            let m2 = apply_state(m, Token::FalseFals);
            assert(spec_update(m, 108u8) == Ok::<VerifierModel, Error>(m2));
            lemma_feed_step(m, s, m2);
            assert(s.drop_first() =~= spec_literal_suffix(m2));
            lemma_update_preserves_reachable(m, 108u8);
            lemma_literal_completion(m2);
        },
        Token::FalseFals => {
            let m2 = apply_state(m, Token::FalseFalse);
            assert(spec_update(m, 115u8) == Ok::<VerifierModel, Error>(m2));
            lemma_feed_step(m, s, m2);
            assert(s.drop_first() =~= spec_literal_suffix(m2));
            lemma_update_preserves_reachable(m, 115u8);
            lemma_literal_completion(m2);
        },
        _ => {},
    }
}

/// The states from which the completer's closing brackets can take over:
/// a completed value or a number past its first digit (whose row takes a
/// closing bracket directly), a container just opened, or the initial
/// state with nothing open.
pub open spec fn completion_ready(m: VerifierModel) -> bool {
    &&& m.reachable()
    &&& (closable(m.state) || m.state == Token::Begin || m.state == Token::Object || m.state
        == Token::Array)
}

/// Feeding the closing brackets the structural stack owes, from any ready
/// state but the initial one, closes every container: each bracket is
/// accepted, and the state that remains is valid.
pub proof fn lemma_closers_complete(m: VerifierModel)
    requires
        completion_ready(m),
        m.state != Token::Begin,
    ensures
        ({
            let f = spec_feed(m, closers(m.stack, None));
            f.1 is Ok && f.0.is_valid()
        }),
    decreases m.stack.len(),
{
    if m.stack.len() == 0 {
        // No container is open, so the state is a completed value.
        assert(m.state == Token::Okay);
        assert(closers(m.stack, None) =~= Seq::<u8>::empty());
    } else {
        let nt = m.nested.last();
        assert(m.stack.last().0 == kind_of(m.nested[m.nested.len() - 1]));
        let b: u8 = if m.stack.last().0 == ValueType::Array {
            93u8
        } else {
            125u8
        };
        let m2 = apply_state(
            VerifierModel { nested: m.nested.drop_last(), stack: m.stack.drop_last(), ..m },
            Token::Okay,
        );
        assert(spec_update(m, b) == Ok::<VerifierModel, Error>(m2));
        let cs = closers(m.stack, None);
        assert(cs =~= seq![b] + closers(m.stack.drop_last(), None));
        assert(cs[0] == b);
        lemma_feed_step(m, cs, m2);
        assert(cs.drop_first() =~= closers(m.stack.drop_last(), None));
        lemma_update_preserves_reachable(m, b);
        lemma_closers_complete(m2);
    }
}

/// How many of the structural stack's entries are anchored strictly below
/// offset `t`: with anchors never decreasing along the stack, those entries
/// form a prefix.
pub open spec fn open_below(stack: Seq<(ValueType, nat)>, t: nat) -> int
    decreases stack.len(),
{
    if stack.len() == 0 {
        0
    } else if stack.last().1 >= t {
        open_below(stack.drop_last(), t)
    } else {
        stack.len() as int
    }
}

/// With anchors never decreasing along the stack, [`open_below`] splits it:
/// every entry before the split is anchored below `t`, every entry from the
/// split on is not.
pub proof fn lemma_open_below_split(stack: Seq<(ValueType, nat)>, t: nat)
    requires
        forall|i: int, k: int|
            0 <= i <= k < stack.len() ==> (#[trigger] stack[i]).1 <= (#[trigger] stack[k]).1,
    ensures
        0 <= open_below(stack, t) <= stack.len(),
        forall|i: int| 0 <= i < open_below(stack, t) ==> (#[trigger] stack[i]).1 < t,
        forall|i: int| open_below(stack, t) <= i < stack.len() ==> (#[trigger] stack[i]).1 >= t,
    decreases stack.len(),
{
    if stack.len() == 0 {
    } else if stack.last().1 >= t {
        let front = stack.drop_last();
        assert forall|i: int, k: int| 0 <= i <= k < front.len() implies (#[trigger] front[i]).1
            <= (#[trigger] front[k]).1 by {
            assert(stack[i].1 <= stack[k].1);
        }
        lemma_open_below_split(front, t);
        let j = open_below(stack, t);
        assert forall|i: int| 0 <= i < j implies (#[trigger] stack[i]).1 < t by {
            assert(front[i].1 < t);
        }
        assert forall|i: int| j <= i < stack.len() implies (#[trigger] stack[i]).1 >= t by {
            if i < front.len() {
                assert(front[i].1 >= t);
            }
        }
    } else {
        assert forall|i: int| 0 <= i < stack.len() implies (#[trigger] stack[i]).1 < t by {
            assert(stack[i].1 <= stack[stack.len() - 1].1);
        }
    }
}

/// When every anchor lies below `t`, every entry counts as open.
pub proof fn lemma_open_below_all(stack: Seq<(ValueType, nat)>, t: nat)
    requires
        forall|i: int| 0 <= i < stack.len() ==> (#[trigger] stack[i]).1 < t,
    ensures
        open_below(stack, t) == stack.len(),
{
}

/// Nothing is anchored below offset zero.
pub proof fn lemma_open_below_zero(stack: Seq<(ValueType, nat)>)
    ensures
        open_below(stack, 0) == 0,
    decreases stack.len(),
{
    if stack.len() > 0 {
        lemma_open_below_zero(stack.drop_last());
    }
}

/// Under a nonzero cutoff that every anchor reaches or passes beyond the
/// split, the kept closers are exactly the closers of the prefix anchored
/// below it.
pub proof fn lemma_closers_cutoff(stack: Seq<(ValueType, nat)>, t: nat, j: int)
    requires
        t > 0,
        0 <= j <= stack.len(),
        forall|i: int| 0 <= i < j ==> (#[trigger] stack[i]).1 < t,
        forall|i: int| j <= i < stack.len() ==> (#[trigger] stack[i]).1 >= t,
    ensures
        closers(stack, Some(t)) == closers(stack.take(j), None),
    decreases stack.len(),
{
    if stack.len() == 0 {
        assert(stack.take(j) =~= stack);
    } else if j == stack.len() {
        assert(stack.take(j) =~= stack);
        lemma_closers_keep_all(stack, t);
    } else {
        assert(!keep_closer(stack.last(), Some(t)));
        let front = stack.drop_last();
        lemma_closers_cutoff(front, t, j);
        assert(front.take(j) =~= stack.take(j));
    }
}

/// Under a nonzero cutoff above every anchor, every closer is kept.
pub proof fn lemma_closers_keep_all(stack: Seq<(ValueType, nat)>, t: nat)
    requires
        t > 0,
        forall|i: int| 0 <= i < stack.len() ==> (#[trigger] stack[i]).1 < t,
    ensures
        closers(stack, Some(t)) == closers(stack, None),
    decreases stack.len(),
{
    if stack.len() > 0 {
        lemma_closers_keep_all(stack.drop_last(), t);
    }
}

/// A feed that accepts a concatenation wholly accepted its first part.
pub proof fn lemma_feed_prefix_ok(m: VerifierModel, a: Seq<u8>, b: Seq<u8>)
    requires
        spec_feed(m, a + b).1 is Ok,
    ensures
        spec_feed(m, a).1 is Ok,
    decreases a.len(),
{
    if a.len() > 0 {
        assert((a + b)[0] == a[0]);
        assert((a + b).len() > 0);
        match spec_update(m, a[0]) {
            Ok(m2) => {
                assert((a + b).drop_first() =~= a.drop_first() + b);
                lemma_feed_prefix_ok(m2, a.drop_first(), b);
            },
            Err(_) => {},
        }
    }
}

/// Everything the completer's soundness rests on, tied to the input that
/// produced the state: the state continues a fresh run over the accepted
/// bytes; anchors never decrease along the stack and never pass the
/// last-known-good offset; and re-running the bytes truncated to that
/// offset reaches a state that is ready for closing brackets and holds
/// exactly the containers anchored below it.
pub open spec fn history(data: Seq<u8>, m: VerifierModel) -> bool {
    &&& m.reachable()
    &&& spec_feed(spec_init(usize::MAX as nat), data) == (m, Ok::<(), Error>(()))
    &&& data.len() == m.length
    &&& (forall|i: int| 0 <= i < m.stack.len() ==> (#[trigger] m.stack[i]).1 <= m.last_ok)
    &&& (forall|i: int, k: int|
        0 <= i <= k < m.stack.len() ==> (#[trigger] m.stack[i]).1 <= (#[trigger] m.stack[k]).1)
    &&& (m.last_ok == 0 ==> m.stack.len() == 0 || m.stack == seq![(ValueType::Object, 0nat)])
    &&& (data.len() > 0 && data[0] == 123 ==> m.last_ok > 0 || m.stack.len() > 0)
    &&& ({
        let f = spec_feed(spec_init(usize::MAX as nat), data.take(m.last_ok as int));
        &&& f.1 is Ok
        &&& completion_ready(f.0)
        &&& (m.last_ok > 0 ==> f.0.state != Token::Begin)
        &&& f.0.stack == m.stack.take(open_below(m.stack, m.last_ok))
    })
}

/// One accepted byte preserves the run history.
pub proof fn lemma_history_step(data: Seq<u8>, m: VerifierModel, b: u8)
    requires
        history(data, m),
        spec_update(m, b) is Ok,
    ensures
        history(data.push(b), spec_update(m, b).unwrap()),
{
    let init = spec_init(usize::MAX as nat);
    let m2 = spec_update(m, b).unwrap();
    let data2 = data.push(b);
    lemma_update_preserves_reachable(m, b);
    lemma_update_grows_length(m, b);
    assert(seq![b][0] == b);
    assert(seq![b].drop_first() =~= Seq::<u8>::empty());
    lemma_feed_step(m, seq![b], m2);
    lemma_feed_append(init, data, seq![b]);
    assert(data + seq![b] =~= data2);
    assert(spec_feed(init, data2) == (m2, Ok::<(), Error>(())));
    // Anchors still never pass the offset, and still never decrease.
    assert forall|i: int| 0 <= i < m2.stack.len() implies (#[trigger] m2.stack[i]).1
        <= m2.last_ok by {
        if i < m.stack.len() {
            assert(m.stack[i].1 <= m.last_ok);
        }
    }
    assert forall|i: int, k: int| 0 <= i <= k < m2.stack.len() implies (#[trigger] m2.stack[i]).1
        <= (#[trigger] m2.stack[k]).1 by {
        if k < m.stack.len() {
            assert(m.stack[i].1 <= m.stack[k].1);
        } else if i < m.stack.len() {
            assert(m.stack[i].1 <= m.last_ok);
        }
    }
    if m2.last_ok == m2.length {
        // The byte marked a fresh last-known-good offset at the new length:
        // the truncated re-run is the whole new run.
        assert(data2.take(m2.last_ok as int) =~= data2);
        assert forall|i: int| 0 <= i < m2.stack.len() implies (#[trigger] m2.stack[i]).1
            < m2.last_ok by {
            if i < m.stack.len() {
                assert(m.stack[i].1 <= m.last_ok);
            }
        }
        lemma_open_below_all(m2.stack, m2.last_ok);
        assert(m2.stack.take(m2.stack.len() as int) =~= m2.stack);
    } else if m2.last_ok == m.length && m2.last_ok > m.last_ok {
        // A comma inside an object: the offset moves to the byte before it,
        // whose state this very step started from.
        assert(data2.take(m2.last_ok as int) =~= data);
        assert(closable(m.state));
        assert forall|i: int| 0 <= i < m2.stack.len() implies (#[trigger] m2.stack[i]).1
            < m2.last_ok by {
            assert(m.stack[i].1 <= m.last_ok);
        }
        lemma_open_below_all(m2.stack, m2.last_ok);
        assert(m2.stack.take(m2.stack.len() as int) =~= m2.stack);
    } else {
        // The offset is unchanged; so is the truncated re-run.
        assert(m2.last_ok == m.last_ok);
        assert(data2.take(m2.last_ok as int) =~= data.take(m.last_ok as int));
        if m2.stack.len() == m.stack.len() {
            assert(m2.stack == m.stack);
        } else {
            // A `{` opened without marking the offset: the document's first
            // byte, or an object opening directly inside an array.
            assert(m2.stack == m.stack.push((ValueType::Object, m.last_ok)));
            if m.state == Token::Begin {
                assert(m2.stack =~= seq![(ValueType::Object, 0nat)]);
                lemma_open_below_zero(m2.stack);
                assert(m2.stack.take(0) =~= Seq::<(ValueType, nat)>::empty());
                assert(spec_feed(init, data2.take(0)) == (init, Ok::<(), Error>(())));
            } else {
                // Inside an array: the array's own anchor is positive, and
                // the new entry is anchored at the offset itself, so the
                // prefix of containers opened below the offset is unchanged.
                assert(m.state == Token::Array);
                assert(m.stack.last().0 == kind_of(m.nested[m.nested.len() - 1]));
                assert(m.last_ok > 0);
                assert(m2.stack.drop_last() =~= m.stack);
                assert(open_below(m2.stack, m2.last_ok) == open_below(m.stack, m.last_ok));
                lemma_open_below_split(m.stack, m.last_ok);
                let j = open_below(m.stack, m.last_ok);
                assert(m2.stack.take(j) =~= m.stack.take(j));
            }
        }
    }
}

/// A whole accepted run satisfies its history.
pub proof fn lemma_run_history(data: Seq<u8>)
    requires
        spec_feed(spec_init(usize::MAX as nat), data).1 is Ok,
    ensures
        history(data, spec_feed(spec_init(usize::MAX as nat), data).0),
    decreases data.len(),
{
    let init = spec_init(usize::MAX as nat);
    if data.len() == 0 {
        assert(data.take(0) =~= data);
        assert(init.stack.take(0) =~= init.stack);
        lemma_open_below_zero(init.stack);
    } else {
        let front = data.drop_last();
        let last = data.last();
        assert(front + seq![last] =~= data);
        lemma_feed_prefix_ok(init, front, seq![last]);
        lemma_run_history(front);
        let mf = spec_feed(init, front).0;
        lemma_feed_append(init, front, seq![last]);
        assert(seq![last][0] == last);
        assert(seq![last].drop_first() =~= Seq::<u8>::empty());
        assert(spec_update(mf, last) is Ok);
        lemma_history_step(front, mf, last);
        assert(front.push(last) =~= data);
    }
}

/// The rewind offset the completer chooses: `None` keeps the whole buffer,
/// `Some(t)` truncates it to the last-known-good offset `t`. A pending
/// partial token that can be finished in place (a number past its first
/// digit, a literal, a value string) needs no rewind; a partial key is
/// dropped wholesale; everything else rewinds.
pub open spec fn spec_rewind(m: VerifierModel) -> Option<nat> {
    match m.state {
        Token::Integer | Token::NullNu | Token::NullNul | Token::NullNull | Token::TrueTr
        | Token::TrueTru | Token::TrueTrue | Token::FalseFa | Token::FalseFal | Token::FalseFals
        | Token::FalseFalse => None,
        Token::String => if m.nested.len() > 0 && m.nested.last() == ValueType::Key {
            Some(m.last_ok)
        } else {
            None
        },
        _ => Some(m.last_ok),
    }
}

/// The bytes that finish the token in flight: the remainder of a literal,
/// or the closing quote of a value string.
pub open spec fn spec_literal_suffix(m: VerifierModel) -> Seq<u8> {
    match m.state {
        Token::NullNu => seq![117u8, 108u8, 108u8],  // "ull"
        Token::NullNul => seq![108u8, 108u8],  // "ll"
        Token::NullNull => seq![108u8],  // "l"
        Token::TrueTr => seq![114u8, 117u8, 101u8],  // "rue"
        Token::TrueTru => seq![117u8, 101u8],  // "ue"
        Token::FalseFa => seq![97u8, 108u8, 115u8, 101u8],  // "alse"
        Token::FalseFal => seq![108u8, 115u8, 101u8],  // "lse"
        Token::FalseFals => seq![115u8, 101u8],  // "se"
        Token::FalseFalse | Token::TrueTrue => seq![101u8],  // "e"
        Token::String => if m.nested.len() > 0 && m.nested.last() == ValueType::Key {
            Seq::empty()
        } else {
            seq![34u8]
        },
        _ => Seq::empty(),
    }
}

/// Whether a structural stack entry still needs its closing bracket: with a
/// rewind to `t`, an entry anchored at or past `t` was opened after the
/// last-known-good point and is truncated away.
pub open spec fn keep_closer(e: (ValueType, nat), cutoff: Option<nat>) -> bool {
    match cutoff {
        None => true,
        Some(t) => t == 0 || e.1 < t,
    }
}

/// The closing bracket of a structural stack entry.
pub open spec fn closer_bytes(ty: ValueType) -> Seq<u8> {
    match ty {
        ValueType::Key => Seq::empty(),
        ValueType::Array => seq![93u8],  // ]
        ValueType::Object => seq![125u8],  // }
    }
}

/// The closing brackets owed by the structural stack, deepest container
/// first, keeping only the entries that survive the rewind.
pub open spec fn closers(stack: Seq<(ValueType, nat)>, cutoff: Option<nat>) -> Seq<u8>
    decreases stack.len(),
{
    if stack.len() == 0 {
        Seq::empty()
    } else {
        (if keep_closer(stack.last(), cutoff) {
            closer_bytes(stack.last().0)
        } else {
            Seq::empty()
        }) + closers(stack.drop_last(), cutoff)
    }
}

/// The completer: the rewind offset and the suffix bytes that turn the
/// accepted prefix into a valid JSON document.
pub open spec fn spec_complete(m: VerifierModel) -> (Option<nat>, Seq<u8>) {
    let cut = spec_rewind(m);
    (cut, spec_literal_suffix(m) + closers(m.stack, cut))
}

/// An executable option of machine integers, widened to mathematical ones.
pub open spec fn opt_nat(o: Option<usize>) -> Option<nat> {
    match o {
        None => None,
        Some(x) => Some(x as nat),
    }
}

/// The abstraction of the executable structural stack: anchors widen from
/// machine integers to mathematical ones.
pub open spec fn abs_stack(s: Seq<(ValueType, usize)>) -> Seq<(ValueType, nat)> {
    s.map_values(|p: (ValueType, usize)| (p.0, p.1 as nat))
}

/// A fast JSON syntax validator for UTF-8 sequences.
///
/// The validator can continue even after an invalid byte has been attempted:
/// `update` changes the state if and only if the byte keeps the input a
/// valid JSON prefix. On a rejected byte it returns an error and keeps its
/// state, so the next call behaves as if the bad byte had never been
/// offered, and a caller may probe bytes until one fits.
#[derive(Debug)]
pub struct Verifier {
    maximum: usize,
    state: Token,
    nested_state: Vec<ValueType>,
    stack: Vec<(ValueType, usize)>,
    length: usize,
    last_ok: usize,
}

impl View for Verifier {
    type V = VerifierModel;

    closed spec fn view(&self) -> VerifierModel {
        VerifierModel {
            maximum: self.maximum as nat,
            state: self.state,
            nested: self.nested_state@,
            stack: abs_stack(self.stack@),
            length: self.length as nat,
            last_ok: self.last_ok as nat,
        }
    }
}

impl Verifier {
    /// Creates a new `Verifier` with the default maximum depth of
    /// `usize::MAX`.
    pub fn new() -> (r: Self)
        ensures
            r@ == spec_init(usize::MAX as nat),
            r@.wf(),
    {
        Self::default()
    }

    /// Creates a new `Verifier` with the specified maximum depth, which must
    /// not be zero.
    pub fn with_maximum_depth(maximum_depth: usize) -> (r: Self)
        requires
            maximum_depth >= 1,
        ensures
            r@ == spec_init(maximum_depth as nat),
            r@.wf(),
    {
        let r = Self {
            length: 0,
            last_ok: 0,
            stack: Vec::new(),
            nested_state: Vec::new(),
            state: Token::Begin,
            maximum: maximum_depth,
        };
        proof {
            assert(r@.stack =~= spec_init(maximum_depth as nat).stack);
            assert(r@ == spec_init(maximum_depth as nat));
        }
        r
    }

    /// Returns the current length of this JSON object.
    pub fn len(&self) -> (r: usize)
        ensures
            r as nat == self@.length,
    {
        self.length
    }

    /// Returns `true` if this JSON object is empty.
    pub fn is_empty(&self) -> (r: bool)
        ensures
            r == (self@.length == 0),
    {
        self.length == 0
    }

    /// Returns the current status of this JSON object: `Valid` exactly when
    /// the parse state has completed a value and no container is open.
    pub fn status(&self) -> (r: Status)
        ensures
            r == Status::Valid <==> self@.is_valid(),
    {
        if self.state == Token::Okay && self.nested_state.is_empty() {
            Status::Valid
        } else {
            Status::Continue
        }
    }

    /// Applies `character` to this JSON object.
    ///
    /// The state changes if and only if the byte keeps the input a valid
    /// JSON prefix: on a rejected byte the verifier returns the error and is
    /// left byte-for-byte as it was, so the next call behaves as if the bad
    /// byte had never been applied.
    pub fn update(&mut self, character: u8) -> (r: Result<(), Error>)
        requires
            old(self)@.wf(),
            old(self)@.length < usize::MAX as nat,
        ensures
            final(self)@.wf(),
            (match spec_update(old(self)@, character) {
                Ok(m) => r is Ok && final(self)@ == m,
                Err(e) => r == Err::<(), Error>(e) && final(self)@ == old(self)@,
            }),
    {
        proof {
            lemma_update_preserves_wf(old(self)@, character);
        }
        // A byte of 128 or above is a UTF-8 continuation: re-apply the
        // current state.
        if character >= 128 {
            let current = self.state;
            self.advance(current);
            return Ok(());
        }
        let character_type = match table::character_type(character) {
            Ok(c) => c,
            Err(e) => {
                return Err(e);
            },
        };
        let transition = match table::transition(self.state, character_type) {
            Ok(t) => t,
            Err(e) => {
                return Err(e);
            },
        };
        match transition {
            Transition::Error => Err(Error::Invalid),
            Transition::Simple(state) => {
                self.advance(state);
                Ok(())
            },
            Transition::Complex(ty) => match ty {
                ComplexToken::BraceEmptyClose => {
                    self.pop(ValueType::Key)?;
                    self.exit(ValueType::Object)?;
                    self.advance(Token::Okay);
                    Ok(())
                },
                ComplexToken::BraceClose => {
                    self.pop(ValueType::Object)?;
                    self.exit(ValueType::Object)?;
                    self.advance(Token::Okay);
                    Ok(())
                },
                ComplexToken::BracketClose => {
                    self.pop(ValueType::Array)?;
                    self.exit(ValueType::Array)?;
                    self.advance(Token::Okay);
                    Ok(())
                },
                ComplexToken::BraceOpen => {
                    self.push(ValueType::Key)?;
                    self.enter(ValueType::Object)?;
                    self.advance(Token::Object);
                    Ok(())
                },
                ComplexToken::BracketOpen => {
                    self.push(ValueType::Array)?;
                    self.enter(ValueType::Array)?;
                    self.advance(Token::Array);
                    Ok(())
                },
                ComplexToken::Quote => {
                    let n: usize = self.nested_state.len();
                    if n == 0 {
                        return Err(Error::Invalid);
                    }
                    let top: ValueType = self.nested_state[n - 1];
                    match top {
                        ValueType::Key => {
                            self.advance(Token::Colon);
                            Ok(())
                        },
                        ValueType::Object | ValueType::Array => {
                            self.advance(Token::Okay);
                            Ok(())
                        },
                    }
                },
                ComplexToken::Comma => {
                    let n: usize = self.nested_state.len();
                    if n == 0 {
                        return Err(Error::Invalid);
                    }
                    let top: ValueType = self.nested_state[n - 1];
                    match top {
                        ValueType::Object => {
                            // Tie-break A: the last-known-good offset moves
                            // to the byte just before the comma.
                            self.last_ok = self.length;
                            self.switch(ValueType::Object, ValueType::Key)?;
                            self.advance(Token::Key);
                            Ok(())
                        },
                        ValueType::Array => {
                            self.advance(Token::Value);
                            Ok(())
                        },
                        ValueType::Key => Err(Error::Invalid),
                    }
                },
                ComplexToken::Kolon => {
                    self.switch(ValueType::Key, ValueType::Object)?;
                    self.advance(Token::Value);
                    Ok(())
                },
            },
        }
    }

    /// The repair plan for the current state: the offset the buffer must be
    /// rewound to, if any, and the bytes to append after it. Pure: the
    /// verifier itself is left untouched.
    pub(crate) fn complete(&self) -> (r: (Option<usize>, Vec<u8>))
        ensures
            opt_nat(r.0) == spec_complete(self@).0,
            r.1@ == spec_complete(self@).1,
    {
        let mut tokens: Vec<u8> = Vec::new();
        let mut until: Option<usize> = None;
        match self.state {
            Token::Integer => {},
            Token::NullNu => {
                tokens.push(117u8);
                tokens.push(108u8);
                tokens.push(108u8);
            },
            Token::NullNul => {
                tokens.push(108u8);
                tokens.push(108u8);
            },
            Token::NullNull => {
                tokens.push(108u8);
            },
            Token::TrueTr => {
                tokens.push(114u8);
                tokens.push(117u8);
                tokens.push(101u8);
            },
            Token::TrueTru => {
                tokens.push(117u8);
                tokens.push(101u8);
            },
            Token::FalseFa => {
                tokens.push(97u8);
                tokens.push(108u8);
                tokens.push(115u8);
                tokens.push(101u8);
            },
            Token::FalseFal => {
                tokens.push(108u8);
                tokens.push(115u8);
                tokens.push(101u8);
            },
            Token::FalseFals => {
                tokens.push(115u8);
                tokens.push(101u8);
            },
            Token::FalseFalse | Token::TrueTrue => {
                tokens.push(101u8);
            },
            Token::String => {
                let n: usize = self.nested_state.len();
                if n > 0 && self.nested_state[n - 1] == ValueType::Key {
                    until = Some(self.last_ok);
                } else {
                    tokens.push(34u8);
                }
            },
            _ => {
                until = Some(self.last_ok);
            },
        }
        let ghost cut: Option<nat> = spec_rewind(self@);
        proof {
            assert(tokens@ =~= spec_literal_suffix(self@));
            assert(opt_nat(until) == cut);
            assert(self@.stack.subrange(0, self@.stack.len() as int) =~= self@.stack);
        }
        let mut i: usize = self.stack.len();
        while i > 0
            invariant
                i <= self.stack.len(),
                self@.stack.len() == self.stack@.len(),
                opt_nat(until) == cut,
                tokens@ + closers(self@.stack.subrange(0, i as int), cut) == spec_literal_suffix(
                    self@,
                ) + closers(self@.stack, cut),
            decreases i,
        {
            i = i - 1;
            let entry: (ValueType, usize) = self.stack[i];
            let keep: bool = match until {
                None => true,
                Some(lo) => lo == 0 || entry.1 < lo,
            };
            proof {
                let sub = self@.stack.subrange(0, i as int + 1);
                assert(sub.last() == self@.stack[i as int]);
                assert(sub.drop_last() =~= self@.stack.subrange(0, i as int));
                assert(self@.stack[i as int] == (entry.0, entry.1 as nat));
                assert(keep == keep_closer(self@.stack[i as int], cut));
            }
            let ghost tokens_before = tokens@;
            if keep {
                match entry.0 {
                    ValueType::Key => {},
                    ValueType::Array => tokens.push(93u8),
                    ValueType::Object => tokens.push(125u8),
                }
            }
            proof {
                assert(tokens@ + closers(self@.stack.subrange(0, i as int), cut) =~= tokens_before
                    + closers(self@.stack.subrange(0, i as int + 1), cut));
            }
        }
        proof {
            assert(self@.stack.subrange(0, 0) =~= Seq::<(ValueType, nat)>::empty());
            assert(tokens@ =~= spec_literal_suffix(self@) + closers(self@.stack, cut));
        }
        (until, tokens)
    }

    /// Pushes a marker on the syntactic stack, within the maximum depth.
    fn push(&mut self, ty: ValueType) -> (r: Result<(), Error>)
        ensures
            (match r {
                Ok(()) => old(self)@.nested.len() < old(self)@.maximum && final(self)@
                    == (VerifierModel { nested: old(self)@.nested.push(ty), ..old(self)@ }),
                Err(e) => e == Error::Exceeded && old(self)@.nested.len() >= old(self)@.maximum
                    && final(self)@ == old(self)@,
            }),
    {
        if self.nested_state.len() < self.maximum {
            self.nested_state.push(ty);
            Ok(())
        } else {
            Err(Error::Exceeded)
        }
    }

    /// Pushes a container on the structural stack, anchored at the current
    /// last-known-good offset.
    fn enter(&mut self, ty: ValueType) -> (r: Result<(), Error>)
        ensures
            (match r {
                Ok(()) => old(self)@.stack.len() < old(self)@.maximum && ty != ValueType::Key
                    && final(self)@ == (VerifierModel {
                    stack: old(self)@.stack.push((ty, old(self)@.last_ok)),
                    ..old(self)@
                }),
                Err(e) => e == Error::Invalid && (old(self)@.stack.len() >= old(self)@.maximum
                    || ty == ValueType::Key) && final(self)@ == old(self)@,
            }),
    {
        if self.stack.len() < self.maximum && ty != ValueType::Key {
            self.stack.push((ty, self.last_ok));
            proof {
                assert(abs_stack(self.stack@) =~= abs_stack(old(self).stack@).push(
                    (ty, old(self)@.last_ok),
                ));
            }
            return Ok(());
        }
        Err(Error::Invalid)
    }

    /// Pops a container of the given kind from the structural stack, and
    /// mutates nothing when the top does not match.
    fn exit(&mut self, ty: ValueType) -> (r: Result<(), Error>)
        ensures
            (match r {
                Ok(()) => old(self)@.stack.len() > 0 && old(self)@.stack.last().0 == ty && final(self)@ == (VerifierModel { stack: old(self)@.stack.drop_last(), ..old(self)@ }),
                Err(e) => e == Error::Invalid && !(old(self)@.stack.len() > 0 && old(self)@.stack.last().0 == ty) && final(self)@ == old(self)@,
            }),
    {
        let n: usize = self.stack.len();
        if n > 0 {
            let top: (ValueType, usize) = self.stack[n - 1];
            if top.0 == ty {
                self.stack.pop();
                proof {
                    assert(abs_stack(self.stack@) =~= abs_stack(old(self).stack@).drop_last());
                }
                return Ok(());
            }
        }
        Err(Error::Invalid)
    }

    /// Pops a marker of the given kind from the syntactic stack, and
    /// mutates nothing when the top does not match.
    fn pop(&mut self, ty: ValueType) -> (r: Result<(), Error>)
        ensures
            (match r {
                Ok(()) => old(self)@.nested.len() > 0 && old(self)@.nested.last() == ty && final(self)@ == (VerifierModel { nested: old(self)@.nested.drop_last(), ..old(self)@ }),
                Err(e) => e == Error::Invalid && !(old(self)@.nested.len() > 0 && old(self)@.nested.last() == ty) && final(self)@ == old(self)@,
            }),
    {
        let n: usize = self.nested_state.len();
        if n > 0 {
            let top: ValueType = self.nested_state[n - 1];
            if top == ty {
                self.nested_state.pop();
                proof {
                    assert(self.nested_state@ =~= old(self).nested_state@.drop_last());
                }
                return Ok(());
            }
        }
        Err(Error::Invalid)
    }

    /// Replaces the top marker of the syntactic stack, `from` by `to`.
    fn switch(&mut self, from: ValueType, to: ValueType) -> (r: Result<(), Error>)
        requires
            old(self)@.nested.len() <= old(self)@.maximum,
        ensures
            (match r {
                Ok(()) => old(self)@.nested.len() > 0 && old(self)@.nested.last() == from && final(self)@ == (VerifierModel {
                    nested: old(self)@.nested.drop_last().push(to),
                    ..old(self)@
                }),
                Err(e) => e == Error::Invalid && !(old(self)@.nested.len() > 0 && old(self)@.nested.last() == from) && final(self)@ == old(self)@,
            }),
    {
        self.pop(from)?;
        match self.push(to) {
            Ok(()) => Ok(()),
            Err(e) => Err(e),
        }
    }

    /// The advance primitive: accept one byte, moving to parse state `next`
    /// and refreshing the last-known-good offset as [`apply_state`] says.
    fn advance(&mut self, next: Token)
        requires
            old(self)@.length < usize::MAX as nat,
        ensures
            final(self)@ == apply_state(old(self)@, next),
    {
        self.length = self.length + 1;
        if next == Token::Okay {
            self.last_ok = self.length;
        }
        let n: usize = self.nested_state.len();
        let top_is_array: bool = n > 0 && self.nested_state[n - 1] == ValueType::Array;
        if (next == Token::Object && self.state == Token::Value) || (next == Token::Array
            && top_is_array) {
            self.last_ok = self.length;
        }
        self.state = next;
    }

    /// Resets this JSON object to its initial state, keeping the configured
    /// maximum depth.
    pub fn reset(&mut self)
        ensures
            final(self)@ == spec_init(old(self)@.maximum),
    {
        self.length = 0;
        self.last_ok = 0;
        self.state = Token::Begin;
        self.stack.clear();
        self.nested_state.clear();
        proof {
            assert(final(self)@.stack =~= spec_init(old(self)@.maximum).stack);
            assert(final(self)@ == spec_init(old(self)@.maximum));
        }
    }
}

impl Default for Verifier {
    /// A verifier with the default maximum depth of `usize::MAX`.
    fn default() -> (r: Self)
        ensures
            r@ == spec_init(usize::MAX as nat),
            r@.wf(),
    {
        Self::with_maximum_depth(usize::MAX)
    }
}

} // verus!
