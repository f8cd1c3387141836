//! Per-request filter state and its lifecycle transitions: configuration,
//! the headers phase (buffer isolation), the blocking-wait outcome with its
//! fail-closed timeout policy, and the end-of-request decision.

use vstd::prelude::*;

use crate::intervention::{FilterDecision, Intervention};

verus! {

/// Ordered header collection: each name carries its ordered list of values;
/// duplicates and order are preserved.
pub type Headers = Vec<(String, Vec<String>)>;

/// Default cap on how many body bytes are captured for inspection.
pub const DEFAULT_MAX_BODY_SIZE: usize = 5_000_000;

/// How long, in seconds, the blocking dispatch waits for the engine's
/// decision before installing the fail-closed sentinel.
pub const BLOCKING_WAIT_TIMEOUT_SECS: u64 = 3;

/// How an evaluation task is handed to the worker pool: detached
/// (fire-and-forget) or awaited over a one-shot result channel.
#[derive(Debug, Clone, Copy, PartialEq, Eq, Structural)]
pub enum SubmissionMode {
    Detached,
    Awaited,
}

/// Per-request mutable state owned by the proxy-facing filter: the header
/// buffer accumulated during the headers phase, the blocking-mode flag, the
/// last-known intervention, and an optional body-size override.
pub struct ModSecurityWAF {
    pub current_headers: Headers,
    pub blocking: bool,
    pub intervention: Option<Intervention>,
    pub request_body_max_size: Option<usize>,
}

/// A decimal digit.
pub open spec fn spec_is_digit(c: char) -> bool {
    48 <= c as int <= 57
}

/// Every character of `s` is a decimal digit.
pub open spec fn all_digits(s: Seq<char>) -> bool {
    forall|i: int| 0 <= i < s.len() ==> spec_is_digit(s[i])
}

/// The value of `s` read as a base-10 numeral.
pub open spec fn digits_value(s: Seq<char>) -> int
    decreases s.len(),
{
    if s.len() == 0 {
        0
    } else {
        digits_value(s.drop_last()) * 10 + (s.last() as int - 48)
    }
}

/// What a numeral string denotes as a size: defined exactly when it is
/// non-empty, all digits, and its value fits in `usize`.
pub open spec fn parsed_size(s: Seq<char>) -> Option<usize> {
    if s.len() > 0 && all_digits(s) && digits_value(s) <= usize::MAX {
        Some(digits_value(s) as usize)
    } else {
        None
    }
}

/// The configuration option that turns on blocking mode.
pub open spec fn blocking_option() -> Seq<char> {
    "blocking"@
}

/// The prefix of the configuration option that overrides the body-size cap.
pub open spec fn size_prefix() -> Seq<char> {
    "max_body_size:"@
}

/// The size carried by one configuration argument: defined exactly when the
/// argument starts with `max_body_size:` and the remainder is a valid size.
pub open spec fn max_size_of_option(a: Seq<char>) -> Option<usize> {
    if a.len() >= size_prefix().len() && a.subrange(0, size_prefix().len() as int)
        == size_prefix() {
        parsed_size(a.subrange(size_prefix().len() as int, a.len() as int))
    } else {
        None
    }
}

/// The (blocking, body-size override) pair that an ordered argument list
/// configures. `blocking` is set by any `blocking` argument; the override is
/// the value of the last well-formed `max_body_size:<N>` argument; every
/// other argument (including a `max_body_size:` one whose value does not
/// parse) changes nothing.
pub open spec fn spec_config(args: Seq<Seq<char>>) -> (bool, Option<usize>)
    decreases args.len(),
{
    if args.len() == 0 {
        (false, None)
    } else {
        let prev = spec_config(args.drop_last());
        let a = args.last();
        if a == blocking_option() {
            (true, prev.1)
        } else if max_size_of_option(a) is Some {
            (prev.0, max_size_of_option(a))
        } else {
            prev
        }
    }
}

impl ModSecurityWAF {
    /// State after the headers phase of a new request: the header buffer is
    /// replaced wholesale by the new request's headers; nothing else moves.
    pub open spec fn after_headers_phase(self, headers: Headers) -> ModSecurityWAF {
        ModSecurityWAF { current_headers: headers, ..self }
    }

    /// The byte cap in force: the configured override, or the default.
    pub open spec fn effective_max(self) -> usize {
        match self.request_body_max_size {
            Some(n) => n,
            None => DEFAULT_MAX_BODY_SIZE,
        }
    }

    /// The end-of-request signal: block exactly when the last-known
    /// intervention is disruptive or carries status 403.
    pub open spec fn end_signal(self) -> FilterDecision {
        if self.intervention matches Some(it) && it.blocks() {
            FilterDecision::Block
        } else {
            FilterDecision::Continue
        }
    }

    /// The submission mode the dispatch controller must use.
    pub open spec fn spec_submission_mode(self) -> SubmissionMode {
        if self.blocking {
            SubmissionMode::Awaited
        } else {
            SubmissionMode::Detached
        }
    }

    /// Relates the state before and after the blocking wait resolves.
    /// `outcome` is `Some` when the worker's decision arrived within the
    /// timeout and `None` when the wait timed out; a timeout installs the
    /// fail-closed sentinel. Nothing but the intervention moves.
    pub open spec fn blocking_wait_applied(
        pre: ModSecurityWAF,
        outcome: Option<Intervention>,
        post: ModSecurityWAF,
    ) -> bool {
        &&& post.current_headers == pre.current_headers
        &&& post.blocking == pre.blocking
        &&& post.request_body_max_size == pre.request_body_max_size
        &&& match outcome {
            Some(it) => post.intervention == Some(it),
            None => post.intervention matches Some(s) && Self::fail_closed_sentinel(s),
        }
    }

    /// The fail-closed sentinel: disruptive, status 403, nothing else set.
    pub open spec fn fail_closed_sentinel(it: Intervention) -> bool {
        &&& it.status == 403
        &&& !it.pause
        &&& it.url@ == Seq::<char>::empty()
        &&& it.log@ == Seq::<char>::empty()
        &&& it.disruptive
    }

    /// Builds the filter state from the ordered list of configuration
    /// arguments: `blocking` enables synchronous fail-closed mode,
    /// `max_body_size:<N>` overrides the byte cap, anything else (including
    /// a `max_body_size:` value that does not parse) is ignored.
    pub fn new(args: &Vec<String>) -> (r: ModSecurityWAF)
        ensures
            r.blocking == spec_config(args.deep_view()).0,
            r.request_body_max_size == spec_config(args.deep_view()).1,
            r.current_headers@ == Seq::<(String, Vec<String>)>::empty(),
            r.intervention is None,
    {
        let blocking_str: String = String::from_str("blocking");
        let mut blocking = false;
        let mut max: Option<usize> = None;
        let mut i: usize = 0;
        while i < args.len()
            invariant
                i <= args.len(),
                args.deep_view().len() == args@.len(),
                blocking_str@ == blocking_option(),
                (blocking, max) == spec_config(args.deep_view().take(i as int)),
            decreases args.len() - i,
        {
            let a: &String = &args[i];
            proof {
                assert(args.deep_view()[i as int] == a@);
                assert(args.deep_view().take(i + 1).drop_last() =~= args.deep_view().take(
                    i as int,
                ));
                assert(args.deep_view().take(i + 1).last() == a@);
            }
            if *a == blocking_str {
                blocking = true;
            } else {
                let parsed = parse_max_size_option(a);
                if parsed.is_some() {
                    max = parsed;
                }
            }
            i = i + 1;
        }
        proof {
            assert(args.deep_view().take(args@.len() as int) =~= args.deep_view());
        }
        ModSecurityWAF {
            current_headers: Vec::new(),
            blocking,
            intervention: None,
            request_body_max_size: max,
        }
    }

    /// Headers phase of a new request: the buffer is cleared and repopulated
    /// with exactly this request's headers, so nothing from an earlier
    /// request survives in it.
    pub fn begin_request_headers(&mut self, headers: Headers)
        ensures
            *final(self) == old(self).after_headers_phase(headers),
            final(self).current_headers == headers,
    {
        self.current_headers = headers;
    }

    /// The byte cap in force for body capture.
    pub fn effective_max_body_size(&self) -> (r: usize)
        ensures
            r == self.effective_max(),
    {
        match self.request_body_max_size {
            Some(n) => n,
            None => DEFAULT_MAX_BODY_SIZE,
        }
    }

    /// How the dispatch controller must submit the evaluation task:
    /// awaited (with a result channel and the timeout contract) exactly in
    /// blocking mode, detached otherwise.
    pub fn submission_mode(&self) -> (m: SubmissionMode)
        ensures
            m == self.spec_submission_mode(),
            m is Awaited <==> self.blocking,
    {
        if self.blocking {
            SubmissionMode::Awaited
        } else {
            SubmissionMode::Detached
        }
    }

    /// Resolves the blocking wait: a decision that arrived in time becomes
    /// the last-known intervention; a timeout (`None`) installs the
    /// fail-closed sentinel instead.
    pub fn apply_blocking_result(&mut self, outcome: Option<Intervention>)
        ensures
            Self::blocking_wait_applied(*old(self), outcome, *final(self)),
            final(self).intervention is Some,
    {
        match outcome {
            Some(it) => {
                self.intervention = Some(it);
            },
            None => {
                self.intervention = Some(Intervention::fail_closed());
            },
        }
    }

    /// End phase: consults the last-known intervention and signals block
    /// exactly when it is disruptive or its status equals 403.
    pub fn http_end(&self) -> (r: FilterDecision)
        ensures
            r == self.end_signal(),
            r is Block <==> (self.intervention matches Some(it) && (it.disruptive || it.status
                == 403)),
    {
        match &self.intervention {
            Some(it) => {
                if it.is_blocking() {
                    FilterDecision::Block
                } else {
                    FilterDecision::Continue
                }
            },
            None => FilterDecision::Continue,
        }
    }
}

/// A digit string denotes a nonnegative value.
proof fn lemma_digits_value_nonneg(s: Seq<char>)
    requires
        all_digits(s),
    ensures
        digits_value(s) >= 0,
    decreases s.len(),
{
    if s.len() > 0 {
        assert(all_digits(s.drop_last()));
        lemma_digits_value_nonneg(s.drop_last());
    }
}

/// A prefix of a digit string denotes no more than the whole string.
proof fn lemma_digits_value_prefix(s: Seq<char>, i: int)
    requires
        all_digits(s),
        0 <= i <= s.len(),
    ensures
        digits_value(s.take(i)) <= digits_value(s),
    decreases s.len() - i,
{
    if i == s.len() {
        assert(s.take(i) =~= s);
    } else {
        assert(s.take(i + 1).drop_last() =~= s.take(i));
        assert(all_digits(s.take(i)));
        lemma_digits_value_nonneg(s.take(i));
        assert(digits_value(s.take(i + 1)) == digits_value(s.take(i)) * 10 + (s[i] as int - 48));
        lemma_digits_value_prefix(s, i + 1);
    }
}

/// Reads the body-size override out of one configuration argument:
/// `Some(n)` exactly when the argument is `max_body_size:<digits>` and the
/// digits denote a value that fits in `usize`.
pub fn parse_max_size_option(arg: &String) -> (r: Option<usize>)
    ensures
        r == max_size_of_option(arg@),
{
    let s: &str = arg.as_str();
    let n: usize = s.unicode_len();
    let prefix: &str = "max_body_size:";
    let plen: usize = prefix.unicode_len();
    if n < plen {
        return None;
    }
    let mut j: usize = 0;
    while j < plen
        invariant
            j <= plen,
            plen == size_prefix().len(),
            prefix@ == size_prefix(),
            s@ == arg@,
            n == arg@.len(),
            plen <= n,
            forall|k: int| 0 <= k < j ==> arg@[k] == size_prefix()[k],
        decreases plen - j,
    {
        if s.get_char(j) != prefix.get_char(j) {
            proof {
                assert(arg@.subrange(0, plen as int)[j as int] != size_prefix()[j as int]);
            }
            return None;
        }
        j = j + 1;
    }
    proof {
        assert(arg@.subrange(0, plen as int) =~= size_prefix());
    }
    if n == plen {
        proof {
            assert(arg@.subrange(plen as int, n as int).len() == 0);
        }
        return None;
    }
    let ghost rest: Seq<char> = arg@.subrange(plen as int, n as int);
    let mut acc: usize = 0;
    let mut j: usize = plen;
    while j < n
        invariant
            plen <= j <= n,
            s@ == arg@,
            n == arg@.len(),
            rest == arg@.subrange(plen as int, n as int),
            rest.len() == n - plen,
            all_digits(arg@.subrange(plen as int, j as int)),
            acc == digits_value(arg@.subrange(plen as int, j as int)),
            arg@.subrange(0, plen as int) == size_prefix(),
            plen == size_prefix().len(),
        decreases n - j,
    {
        let c = s.get_char(j);
        let cu = c as u32;
        proof {
            assert(arg@.subrange(plen as int, j as int) =~= rest.take(j - plen));
            assert(arg@.subrange(plen as int, (j + 1) as int) =~= rest.take(j - plen + 1));
            assert(rest.take(j - plen + 1).drop_last() =~= rest.take(j - plen));
            assert(rest[j - plen] == arg@[j as int]);
        }
        if cu < 48 || cu > 57 {
            proof {
                assert(!spec_is_digit(rest[j - plen]));
                assert(!all_digits(rest));
            }
            return None;
        }
        let d: u64 = (cu - 48) as u64;
        let wide: u128 = (acc as u128) * 10 + (d as u128);
        proof {
            assert(digits_value(rest.take(j - plen + 1)) == digits_value(rest.take(j - plen)) * 10
                + (rest[j - plen] as int - 48));
        }
        if wide > (usize::MAX as u128) {
            proof {
                if all_digits(rest) {
                    lemma_digits_value_prefix(rest, j - plen + 1);
                    assert(digits_value(rest) > usize::MAX);
                }
            }
            return None;
        }
        acc = wide as usize;
        j = j + 1;
    }
    proof {
        assert(arg@.subrange(plen as int, n as int) =~= rest);
        assert(parsed_size(rest) == Some(acc));
    }
    Some(acc)
}

/// Law: when the worker pool's decision arrives before the timeout in
/// blocking mode, the end-phase outcome is block exactly when that decision
/// is disruptive or carries status 403.
pub proof fn lemma_timely_decision_governs_end_phase(
    pre: ModSecurityWAF,
    it: Intervention,
    post: ModSecurityWAF,
)
    requires
        ModSecurityWAF::blocking_wait_applied(pre, Some(it), post),
    ensures
        post.end_signal() is Block <==> (it.disruptive || it.status == 403),
{
}

/// Law: when the blocking wait times out, the end-phase outcome is block
/// with status 403, whatever the discarded real decision would have been.
pub proof fn lemma_timeout_fails_closed(pre: ModSecurityWAF, post: ModSecurityWAF)
    requires
        ModSecurityWAF::blocking_wait_applied(pre, None, post),
    ensures
        post.end_signal() is Block,
        post.intervention matches Some(s) && s.status == 403 && s.disruptive,
{
}

/// Law: header buffer isolation. After the headers phases of two sequential
/// requests A then B on the same filter state, the buffer holds exactly B's
/// headers: every entry recorded during B's phase is one of B's.
pub proof fn lemma_header_buffer_isolation(s0: ModSecurityWAF, a: Headers, b: Headers)
    ensures
        s0.after_headers_phase(a).after_headers_phase(b).current_headers == b,
        forall|i: int|
            0 <= i < s0.after_headers_phase(a).after_headers_phase(b).current_headers@.len()
                ==> b@.contains(
                s0.after_headers_phase(a).after_headers_phase(b).current_headers@[i],
            ),
{
}

/// Law: in non-blocking mode the evaluation task is submitted detached and
/// no blocking wait is ever resolved; since neither the headers phase nor
/// the payload phase touches the last-known intervention, a request cycle
/// that starts with none recorded ends with the continue signal, whatever
/// the engine's (unconsumed) decision turns out to be.
pub proof fn lemma_detached_mode_never_blocks(s0: ModSecurityWAF, headers: Headers)
    requires
        !s0.blocking,
    ensures
        s0.spec_submission_mode() is Detached,
        s0.after_headers_phase(headers).intervention == s0.intervention,
        s0.intervention is None ==> s0.after_headers_phase(headers).end_signal() is Continue,
{
}

} // verus!
