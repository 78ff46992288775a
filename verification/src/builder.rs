//! The builder: an append-only byte buffer mirrored against a validator.
//!
//! Bytes that the validator accepts are appended to the buffer; on the first
//! rejected byte the builder latches into a permanent invalid mode. The
//! completed output truncates the buffer to the last-known-good offset and
//! appends the completer's closing tokens.

use vstd::prelude::*;
use vstd::utf8::{encode_utf8, valid_utf8};

use crate::validator::{
    closers, lemma_closers_complete, lemma_closers_cutoff, lemma_feed_append, lemma_feed_step,
    lemma_feed_preserves_reachable, lemma_literal_completion, lemma_open_below_split,
    lemma_run_history, open_below, opt_nat, spec_accepted, spec_complete, spec_feed, spec_init,
    spec_literal_suffix, spec_rewind, spec_update, ValueType, Verifier, VerifierModel,
};
use crate::{Error, Status};

verus! {

/// Expanded options for constructing a [`Builder`] instance.
#[derive(Debug)]
pub struct Options {
    /// The maximum nesting depth the validator allows. Must not be zero.
    pub maximum_depth: usize,
    /// The initial capacity of the byte buffer.
    pub initial_capacity: usize,
}

impl Default for Options {
    /// An effectively unbounded depth, and a small initial buffer.
    fn default() -> (r: Self)
        ensures
            r.maximum_depth == usize::MAX,
            r.initial_capacity == 512,
    {
        Options { initial_capacity: 512, maximum_depth: usize::MAX }
    }
}

/// A source of bytes: anything the update surface accepts — a single byte,
/// a byte slice, an owned byte vector, a text slice, or an owned text
/// string — observed as a raw byte sequence.
pub trait Source {
    /// The byte sequence this source stands for.
    spec fn stream_spec(&self) -> Seq<u8>;

    /// The bytes themselves.
    fn stream(&self) -> (r: &[u8])
        ensures
            r@ == self.stream_spec(),
    ;
}

/// Relies on `core::slice::from_ref`: a slice of length one holding exactly
/// the referenced value.
#[verifier::external_body]
fn byte_slice(b: &u8) -> (r: &[u8])
    ensures
        r@ == seq![*b],
{
    core::slice::from_ref(b)
}

impl Source for u8 {
    open spec fn stream_spec(&self) -> Seq<u8> {
        seq![*self]
    }

    fn stream(&self) -> (r: &[u8]) {
        byte_slice(self)
    }
}

impl Source for &[u8] {
    open spec fn stream_spec(&self) -> Seq<u8> {
        (*self)@
    }

    fn stream(&self) -> (r: &[u8]) {
        *self
    }
}

impl Source for Vec<u8> {
    open spec fn stream_spec(&self) -> Seq<u8> {
        self@
    }

    fn stream(&self) -> (r: &[u8]) {
        self.as_slice()
    }
}

impl Source for &str {
    open spec fn stream_spec(&self) -> Seq<u8> {
        encode_utf8((*self)@)
    }

    fn stream(&self) -> (r: &[u8]) {
        self.as_bytes()
    }
}

impl Source for String {
    open spec fn stream_spec(&self) -> Seq<u8> {
        encode_utf8(self@)
    }

    fn stream(&self) -> (r: &[u8]) {
        self.as_str().as_bytes()
    }
}

/// Relies on `String::from_utf8`: it succeeds exactly on valid UTF-8 input,
/// and the string it returns spells those very bytes.
#[verifier::external_body]
fn bytes_into_string(data: Vec<u8>) -> (r: Result<String, Error>)
    ensures
        (match r {
            Ok(s) => valid_utf8(data@) && encode_utf8(s@) == data@,
            Err(e) => !valid_utf8(data@) && e == Error::Utf8,
        }),
{
    match String::from_utf8(data) {
        Ok(s) => Ok(s),
        Err(_) => Err(Error::Utf8),
    }
}

/// The mathematical state of a [`Builder`].
pub struct BuilderModel {
    /// The bytes accepted so far.
    pub data: Seq<u8>,
    /// Whether the builder has latched into its permanent invalid mode.
    pub invalid: bool,
    /// The state of the embedded validator.
    pub verifier: VerifierModel,
}

impl BuilderModel {
    /// Well-formedness: the validator is well-formed and the buffer holds
    /// exactly the bytes the validator has counted.
    pub open spec fn wf(self) -> bool {
        self.verifier.wf() && self.data.len() == self.verifier.length
    }
}

/// The state of a freshly constructed builder.
pub open spec fn spec_builder_init(maximum: nat) -> BuilderModel {
    BuilderModel { data: Seq::empty(), invalid: false, verifier: spec_init(maximum) }
}

/// The effect of feeding a byte sequence to a builder: an invalid builder
/// rejects it whole; otherwise the accepted prefix is appended and the
/// builder latches invalid exactly when a byte was rejected.
pub open spec fn spec_builder_update(b: BuilderModel, s: Seq<u8>) -> (BuilderModel, Result<
    (),
    Error,
>) {
    if b.invalid {
        (b, Err(Error::Invalid))
    } else {
        let fed = spec_feed(b.verifier, s);
        (
            BuilderModel {
                data: b.data + spec_accepted(b.verifier, s),
                invalid: fed.1 is Err,
                verifier: fed.0,
            },
            fed.1,
        )
    }
}

/// The buffer shortened to `t` bytes, with the special rule that a rewind
/// offset of zero keeps one byte: an initial `{` or `[` survives when
/// nothing else has been accepted.
pub open spec fn spec_truncated(data: Seq<u8>, t: nat) -> Seq<u8> {
    let k: int = if t == 0 {
        1
    } else {
        t as int
    };
    if k <= data.len() {
        data.take(k)
    } else {
        data
    }
}

/// The completed output for a buffer and a validator state: the buffer
/// itself when the document is already valid, else the buffer rewound as
/// the completer says and suffixed with its closing tokens.
pub open spec fn spec_completed_bytes(data: Seq<u8>, m: VerifierModel) -> Seq<u8> {
    if m.is_valid() {
        data
    } else {
        let plan = spec_complete(m);
        match plan.0 {
            None => data + plan.1,
            Some(t) => spec_truncated(data, t) + plan.1,
        }
    }
}

/// What the completer produces parses: when a fresh validator accepts an
/// input wholly, the completed bytes feed a fresh validator without
/// rejection and leave it valid.
///
/// One family of inputs is left out, and the claim is false on it: nothing
/// but whitespace was ever known good (the last-known-good offset is zero)
/// and the document does not open with `{`. There the zero-offset
/// truncation keeps a single whitespace byte, or nothing, and the closing
/// brackets that follow it cannot parse.
pub proof fn lemma_completed_parses(s: Seq<u8>)
    requires
        spec_feed(spec_init(usize::MAX as nat), s).1 is Ok,
        ({
            let fed = spec_feed(spec_init(usize::MAX as nat), s);
            ||| fed.0.is_valid()
            ||| spec_rewind(fed.0) is None
            ||| fed.0.last_ok > 0
            ||| s.len() > 0 && s[0] == 123
        }),
    ensures
        ({
            let fed = spec_feed(spec_init(usize::MAX as nat), s);
            let refed = spec_feed(spec_init(usize::MAX as nat), spec_completed_bytes(s, fed.0));
            refed.1 is Ok && refed.0.is_valid()
        }),
{
    let init = spec_init(usize::MAX as nat);
    let fed = spec_feed(init, s);
    let m = fed.0;
    assert(init.reachable());
    lemma_feed_preserves_reachable(init, s);
    lemma_run_history(s);
    if m.is_valid() {
        assert(spec_completed_bytes(s, m) == s);
    } else if spec_rewind(m) is None {
        let lit = spec_literal_suffix(m);
        let cls = closers(m.stack, None);
        assert(spec_completed_bytes(s, m) == s + (lit + cls));
        lemma_literal_completion(m);
        let f2 = spec_feed(m, lit);
        lemma_feed_append(init, s, lit + cls);
        lemma_feed_append(m, lit, cls);
        lemma_closers_complete(f2.0);
        assert(closers(f2.0.stack, None) == cls);
    } else {
        let t = m.last_ok;
        assert(spec_rewind(m) == Some(t));
        assert(spec_literal_suffix(m) =~= Seq::<u8>::empty());
        let cls = closers(m.stack, Some(t));
        assert(Seq::<u8>::empty() + cls =~= cls);
        let out = spec_completed_bytes(s, m);
        if t > 0 {
            assert(t <= s.len());
            let kept = s.take(t as int);
            assert(spec_truncated(s, t) =~= kept);
            assert(out =~= kept + cls);
            let f = spec_feed(init, kept);
            let j = open_below(m.stack, t);
            lemma_open_below_split(m.stack, t);
            lemma_closers_cutoff(m.stack, t, j);
            assert(cls == closers(f.0.stack, None));
            lemma_feed_append(init, kept, cls);
            lemma_closers_complete(f.0);
            assert(spec_feed(init, out) == spec_feed(f.0, cls));
        } else {
            // The document opens with `{` and nothing past it was ever
            // known good: one brace survives the truncation, and its one
            // closer follows.
            assert(s.len() > 0 && s[0] == 123);
            assert(m.stack.len() > 0);
            assert(m.stack == seq![(ValueType::Object, 0nat)]);
            assert(spec_truncated(s, 0) =~= s.take(1));
            assert(s.take(1) =~= seq![123u8]);
            assert(m.stack.last() == (ValueType::Object, 0nat));
            assert(m.stack.drop_last() =~= Seq::<(ValueType, nat)>::empty());
            assert(closers(Seq::<(ValueType, nat)>::empty(), Some(0nat)) =~= Seq::<u8>::empty());
            assert(cls =~= seq![125u8]);
            assert(out =~= seq![123u8, 125u8]);
            let m1 = spec_update(init, 123u8).unwrap();
            assert(out[0] == 123u8);
            lemma_feed_step(init, out, m1);
            assert(out.drop_first() =~= seq![125u8]);
            assert(m1.nested =~= Seq::<ValueType>::empty().push(ValueType::Key));
            let m2 = spec_update(m1, 125u8).unwrap();
            assert(seq![125u8][0] == 125u8);
            lemma_feed_step(m1, seq![125u8], m2);
            assert(seq![125u8].drop_first() =~= Seq::<u8>::empty());
            assert(m2.is_valid());
        }
    }
}

/// A string builder for JSON that can repair and complete incomplete or
/// damaged JSON.
///
/// Unlike the [`Verifier`], adding a sequence of characters that would make
/// the underlying JSON object invalid causes the `Builder` to remain
/// invalid, even if more characters are added to it later.
#[derive(Debug)]
pub struct Builder {
    data: Vec<u8>,
    invalid: bool,
    verifier: Verifier,
}

impl View for Builder {
    type V = BuilderModel;

    closed spec fn view(&self) -> BuilderModel {
        BuilderModel { data: self.data@, invalid: self.invalid, verifier: self.verifier@ }
    }
}

impl Builder {
    /// Creates a new `Builder` with the default maximum depth of
    /// `usize::MAX`.
    pub fn new() -> (r: Self)
        ensures
            r@ == spec_builder_init(usize::MAX as nat),
            r@.wf(),
    {
        Self::default()
    }

    /// Creates a new `Builder` with the specified maximum depth, which must
    /// not be zero.
    pub fn with_maximum_depth(maximum_depth: usize) -> (r: Self)
        requires
            maximum_depth >= 1,
        ensures
            r@ == spec_builder_init(maximum_depth as nat),
            r@.wf(),
    {
        let mut options = Options::default();
        options.maximum_depth = maximum_depth;
        Self::with_options(&options)
    }

    /// Creates a new `Builder` with the specified initial capacity.
    pub fn with_capacity(initial_capacity: usize) -> (r: Self)
        ensures
            r@ == spec_builder_init(usize::MAX as nat),
            r@.wf(),
    {
        let mut options = Options::default();
        options.initial_capacity = initial_capacity;
        Self::with_options(&options)
    }

    /// Creates a new `Builder` with the specified options. The maximum
    /// depth must not be zero.
    pub fn with_options(options: &Options) -> (r: Self)
        requires
            options.maximum_depth >= 1,
        ensures
            r@ == spec_builder_init(options.maximum_depth as nat),
            r@.wf(),
    {
        Builder {
            invalid: false,
            data: Vec::with_capacity(options.initial_capacity),
            verifier: Verifier::with_maximum_depth(options.maximum_depth),
        }
    }

    /// Returns the current length of this JSON object.
    pub fn len(&self) -> (r: usize)
        ensures
            r as nat == self@.data.len(),
    {
        self.data.len()
    }

    /// Returns `true` if this JSON object is empty.
    pub fn is_empty(&self) -> (r: bool)
        ensures
            r == (self@.data.len() == 0),
    {
        self.data.is_empty()
    }

    /// Returns the current status of this JSON object.
    pub fn status(&self) -> (r: Status)
        ensures
            r == Status::Valid <==> self@.verifier.is_valid(),
    {
        self.verifier.status()
    }

    /// Resets this JSON object to its initial state, keeping the configured
    /// maximum depth.
    pub fn reset(&mut self)
        ensures
            final(self)@ == spec_builder_init(old(self)@.verifier.maximum),
    {
        self.invalid = false;
        self.data.clear();
        self.verifier.reset();
        proof {
            assert(final(self)@.data =~= spec_builder_init(old(self)@.verifier.maximum).data);
        }
    }

    /// Appends the provided source to this JSON object.
    ///
    /// Each byte the validator accepts is mirrored into the buffer; on the
    /// first rejected byte the builder latches invalid, keeps the bytes
    /// accepted before it, and returns the validator's error. An already
    /// invalid builder rejects every update.
    pub fn update<S: Source>(&mut self, source: &S) -> (r: Result<(), Error>)
        requires
            old(self)@.wf(),
            old(self)@.data.len() + source.stream_spec().len() <= usize::MAX,
        ensures
            final(self)@.wf(),
            final(self)@ == spec_builder_update(old(self)@, source.stream_spec()).0,
            r == spec_builder_update(old(self)@, source.stream_spec()).1,
    {
        if self.invalid {
            return Err(Error::Invalid);
        }
        let stream = source.stream();
        let n: usize = stream.len();
        proof {
            assert(stream@.skip(0) =~= stream@);
            assert(self@.data + stream@.take(0) =~= self@.data);
            assert(stream@.take(0) + spec_accepted(self@.verifier, stream@.skip(0))
                =~= spec_accepted(self@.verifier, stream@));
        }
        let mut i: usize = 0;
        while i < n
            invariant
                i <= n,
                n == stream@.len(),
                stream@ == source.stream_spec(),
                !old(self)@.invalid,
                !self@.invalid,
                self@.verifier.wf(),
                self@.data.len() == self@.verifier.length,
                old(self)@.data.len() + n <= usize::MAX,
                self@.data == old(self)@.data + stream@.take(i as int),
                spec_feed(old(self)@.verifier, stream@) == spec_feed(
                    self@.verifier,
                    stream@.skip(i as int),
                ),
                spec_accepted(old(self)@.verifier, stream@) == stream@.take(i as int)
                    + spec_accepted(self@.verifier, stream@.skip(i as int)),
            decreases n - i,
        {
            let c = stream[i];
            let ghost pre = self@.verifier;
            proof {
                assert(stream@.skip(i as int)[0] == c);
                assert(stream@.skip(i as int).len() > 0);
            }
            match self.verifier.update(c) {
                Ok(()) => {
                    self.data.push(c);
                    proof {
                        assert(stream@.skip(i as int).drop_first() =~= stream@.skip(i as int + 1));
                        assert(old(self)@.data + stream@.take(i as int + 1) =~= (old(self)@.data
                            + stream@.take(i as int)) + seq![c]);
                        assert(stream@.take(i as int + 1) + spec_accepted(
                            self@.verifier,
                            stream@.skip(i as int + 1),
                        ) =~= stream@.take(i as int) + (seq![c] + spec_accepted(
                            self@.verifier,
                            stream@.skip(i as int + 1),
                        )));
                    }
                    i = i + 1;
                },
                Err(e) => {
                    self.invalid = true;
                    proof {
                        assert(spec_feed(pre, stream@.skip(i as int)) == (pre, Err::<(), Error>(e)));
                        assert(spec_accepted(pre, stream@.skip(i as int)) =~= Seq::<u8>::empty());
                        assert(self@.data =~= old(self)@.data + spec_accepted(
                            old(self)@.verifier,
                            stream@,
                        ));
                    }
                    return Err(e);
                },
            }
        }
        proof {
            assert(stream@.skip(n as int) =~= Seq::<u8>::empty());
            assert(stream@.take(n as int) =~= stream@);
            assert(self@.data =~= old(self)@.data + spec_accepted(old(self)@.verifier, stream@));
        }
        Ok(())
    }

    /// Returns the underlying byte stream, or the invalid error when the
    /// builder has latched invalid.
    pub fn bytes(self) -> (r: Result<Vec<u8>, Error>)
        ensures
            (match r {
                Ok(v) => !self@.invalid && v@ == self@.data,
                Err(e) => self@.invalid && e == Error::Invalid,
            }),
    {
        if self.invalid {
            return Err(Error::Invalid);
        }
        Ok(self.data)
    }

    /// Returns the JSON object as a string: the invalid error when the
    /// builder has latched invalid, the UTF-8 error when the accepted bytes
    /// are not a UTF-8 sequence, and the text they spell otherwise.
    pub fn string(self) -> (r: Result<String, Error>)
        ensures
            (match r {
                Ok(s) => !self@.invalid && valid_utf8(self@.data) && encode_utf8(s@)
                    == self@.data,
                Err(e) => (self@.invalid && e == Error::Invalid) || (!self@.invalid
                    && !valid_utf8(self@.data) && e == Error::Utf8),
            }),
    {
        let data = match self.bytes() {
            Ok(d) => d,
            Err(e) => {
                return Err(e);
            },
        };
        bytes_into_string(data)
    }

    /// Returns the completed JSON object as a byte stream: the buffer
    /// itself when it is already valid, else the buffer rewound to the
    /// last-known-good offset and suffixed with the completer's closing
    /// tokens. Fails only on a builder that has latched invalid.
    pub fn completed_bytes(self) -> (r: Result<Vec<u8>, Error>)
        ensures
            (match r {
                Ok(v) => !self@.invalid && v@ == spec_completed_bytes(self@.data, self@.verifier),
                Err(e) => self@.invalid && e == Error::Invalid,
            }),
    {
        if self.invalid {
            return Err(Error::Invalid);
        }
        let mut data = self.data;
        let verifier = self.verifier;
        match verifier.status() {
            Status::Valid => Ok(data),
            Status::Continue => {
                let plan = verifier.complete();
                let mut tokens = plan.1;
                match plan.0 {
                    Some(u) => {
                        let k: usize = if u == 0 {
                            1
                        } else {
                            u
                        };
                        data.truncate(k);
                        proof {
                            assert(data@ =~= spec_truncated(self@.data, u as nat));
                        }
                    },
                    None => {},
                }
                data.append(&mut tokens);
                Ok(data)
            },
        }
    }

    /// Returns the completed JSON object as a string: as
    /// [`Builder::completed_bytes`], decoded as UTF-8, with the UTF-8 error
    /// where the completed bytes are no UTF-8 sequence.
    pub fn completed_string(self) -> (r: Result<String, Error>)
        ensures
            (match r {
                Ok(s) => !self@.invalid && valid_utf8(
                    spec_completed_bytes(self@.data, self@.verifier),
                ) && encode_utf8(s@) == spec_completed_bytes(self@.data, self@.verifier),
                Err(e) => (self@.invalid && e == Error::Invalid) || (!self@.invalid && !valid_utf8(
                    spec_completed_bytes(self@.data, self@.verifier),
                ) && e == Error::Utf8),
            }),
    {
        let data = match self.completed_bytes() {
            Ok(d) => d,
            Err(e) => {
                return Err(e);
            },
        };
        bytes_into_string(data)
    }
}

impl Default for Builder {
    /// A builder with the default maximum depth of `usize::MAX` and an
    /// empty buffer.
    fn default() -> (r: Self)
        ensures
            r@ == spec_builder_init(usize::MAX as nat),
            r@.wf(),
    {
        Builder { data: Vec::new(), invalid: false, verifier: Verifier::new() }
    }
}

} // verus!
