//! Client-side core for a blockchain "portal" service: declarative queries
//! over EVM and Solana history, a decoder that turns the service's
//! line-delimited JSON blocks into typed row batches, and the retry and
//! cursor logic of the block stream.

use vstd::prelude::*;

pub mod json;
pub mod evm;
pub mod svm;
pub mod util;

verus! {

/// The failure kinds the library distinguishes.
#[derive(Debug, Clone, Copy, PartialEq, Eq, Structural)]
pub enum ErrorKind {
    /// HTTP or network failure, including non-success status codes.
    Transport,
    /// A JSON value did not have the expected shape or type.
    Shape,
    /// Hex or base58 text could not be decoded.
    Codec,
    /// A numeric value did not fit the target width.
    Range,
    /// An operation that needs at least one block row saw none.
    Empty,
    /// A block object came without its `header`.
    MissingHeader,
}

/// An error with a chain of human-readable context frames, innermost first.
#[derive(Debug, Clone)]
pub struct Error {
    pub kind: ErrorKind,
    pub context: Vec<String>,
}

impl Error {
    /// Build an error of the given kind with one context frame.
    pub fn new(kind: ErrorKind, what: &str) -> (r: Error)
        ensures
            r.kind == kind,
    {
        Error { kind, context: vec![what.to_owned()] }
    }

    /// Wrap the error in one more context frame, keeping its kind.
    pub fn context(self, what: &str) -> (r: Error)
        ensures
            r.kind == self.kind,
    {
        let mut e = self;
        e.context.push(what.to_owned());
        e
    }
}

// ---------------------------------------------------------------------------
// Configuration
// ---------------------------------------------------------------------------

/// How the client retries and how long it waits for the service.
#[derive(Debug, Clone, Copy)]
pub struct ClientConfig {
    pub max_num_retries: usize,
    pub retry_backoff_ms: u64,
    pub retry_base_ms: u64,
    pub retry_ceiling_ms: u64,
    pub http_req_timeout_millis: u64,
}

impl ClientConfig {
    /// What the retry arithmetic needs: a positive backoff, and room for
    /// one backoff step above both the base and the ceiling.
    pub open spec fn valid(&self) -> bool {
        &&& self.retry_backoff_ms >= 1
        &&& self.retry_base_ms + self.retry_backoff_ms <= u64::MAX
        &&& self.retry_ceiling_ms + self.retry_backoff_ms <= u64::MAX
    }
}

impl Default for ClientConfig {
    fn default() -> (r: ClientConfig)
        ensures
            r.max_num_retries == 9,
            r.retry_backoff_ms == 1000,
            r.retry_base_ms == 250,
            r.retry_ceiling_ms == 2000,
            r.http_req_timeout_millis == 40000,
            r.valid(),
    {
        ClientConfig {
            max_num_retries: 9,
            retry_backoff_ms: 1000,
            retry_base_ms: 250,
            retry_ceiling_ms: 2000,
            http_req_timeout_millis: 40_000,
        }
    }
}

/// How a block stream polls at the head and how much it buffers.
#[derive(Debug, Clone, Copy)]
pub struct StreamConfig {
    pub stop_on_head: bool,
    pub head_poll_interval_millis: u64,
    pub buffer_size: usize,
}

impl Default for StreamConfig {
    fn default() -> (r: StreamConfig)
        ensures
            r.stop_on_head == false,
            r.head_poll_interval_millis == 1000,
            r.buffer_size == 10,
    {
        StreamConfig { stop_on_head: false, head_poll_interval_millis: 1_000, buffer_size: 10 }
    }
}

// ---------------------------------------------------------------------------
// The retry schedule
// ---------------------------------------------------------------------------

/// The wait before retry number `i`, jitter aside: the base delay grows
/// by one backoff per attempt and is capped at the ceiling.
pub open spec fn base_at(cfg: ClientConfig, i: nat) -> u64 {
    if cfg.retry_base_ms + i * cfg.retry_backoff_ms <= cfg.retry_ceiling_ms {
        (cfg.retry_base_ms + i * cfg.retry_backoff_ms) as u64
    } else {
        cfg.retry_ceiling_ms
    }
}

/// The walking state of one call's retry loop.
pub struct RetrySchedule {
    pub cfg: ClientConfig,
    pub base_ms: u64,
    pub attempt: Ghost<nat>,
}

impl RetrySchedule {
    pub open spec fn wf(&self) -> bool {
        &&& self.cfg.valid()
        &&& self.base_ms == base_at(self.cfg, self.attempt@)
    }

    /// A fresh schedule, before any failure.
    pub fn new(cfg: &ClientConfig) -> (r: RetrySchedule)
        requires
            cfg.valid(),
        ensures
            r.wf(),
            r.cfg == *cfg,
            r.attempt@ == 0,
            r.base_ms == base_at(*cfg, 0),
    {
        proof {
            assert(0 * cfg.retry_backoff_ms == 0) by (nonlinear_arith);
        }
        let base = if cfg.retry_base_ms <= cfg.retry_ceiling_ms {
            cfg.retry_base_ms
        } else {
            cfg.retry_ceiling_ms
        };
        RetrySchedule { cfg: *cfg, base_ms: base, attempt: Ghost(0) }
    }

    /// After one more failure: how long to sleep before the next try.
    /// The wait is the current base plus an additive jitter drawn from
    /// `[0, retry_backoff_ms)` out of the entropy word, and the base then
    /// grows by one backoff, capped at the ceiling.
    pub fn next_delay_ms(&mut self, entropy: u64) -> (d: u64)
        requires
            old(self).wf(),
        ensures
            final(self).wf(),
            final(self).cfg == old(self).cfg,
            final(self).attempt@ == old(self).attempt@ + 1,
            d == old(self).base_ms + entropy % old(self).cfg.retry_backoff_ms,
            old(self).base_ms <= d < old(self).base_ms + old(self).cfg.retry_backoff_ms,
            old(self).base_ms == base_at(old(self).cfg, old(self).attempt@),
    {
        let jitter = entropy % self.cfg.retry_backoff_ms;
        proof {
            lemma_base_at_fits(self.cfg, self.attempt@);
        }
        let d = self.base_ms + jitter;
        let grown = self.base_ms + self.cfg.retry_backoff_ms;
        let next_base = if grown < self.cfg.retry_ceiling_ms {
            grown
        } else {
            self.cfg.retry_ceiling_ms
        };
        proof {
            lemma_base_at_step(self.cfg, self.attempt@);
        }
        self.base_ms = next_base;
        proof {
            self.attempt@ = old(self).attempt@ + 1;
        }
        d
    }

    /// As `next_delay_ms`, drawing the jitter entropy itself.
    pub fn next_delay(&mut self) -> (d: u64)
        requires
            old(self).wf(),
        ensures
            final(self).wf(),
            final(self).cfg == old(self).cfg,
            final(self).attempt@ == old(self).attempt@ + 1,
            old(self).base_ms <= d < old(self).base_ms + old(self).cfg.retry_backoff_ms,
            old(self).base_ms == base_at(old(self).cfg, old(self).attempt@),
    {
        let entropy = rand::random::<u64>();
        self.next_delay_ms(entropy)
    }
}

/// The capped base never exceeds the larger of the first base and the
/// ceiling, so one backoff step cannot overflow.
proof fn lemma_base_at_fits(cfg: ClientConfig, i: nat)
    requires
        cfg.valid(),
    ensures
        base_at(cfg, i) <= cfg.retry_base_ms || base_at(cfg, i) <= cfg.retry_ceiling_ms,
        base_at(cfg, i) + cfg.retry_backoff_ms <= u64::MAX,
{
    if cfg.retry_base_ms + i * cfg.retry_backoff_ms <= cfg.retry_ceiling_ms {
        assert(i * cfg.retry_backoff_ms >= 0) by (nonlinear_arith);
    }
}

/// Growing the base by one backoff and capping it lands exactly on the
/// next attempt's base.
proof fn lemma_base_at_step(cfg: ClientConfig, i: nat)
    requires
        cfg.valid(),
    ensures
        base_at(cfg, i + 1) == if base_at(cfg, i) + cfg.retry_backoff_ms
            < cfg.retry_ceiling_ms {
            (base_at(cfg, i) + cfg.retry_backoff_ms) as u64
        } else {
            cfg.retry_ceiling_ms
        },
{
    assert((i + 1) * cfg.retry_backoff_ms == i * cfg.retry_backoff_ms + cfg.retry_backoff_ms)
        by (nonlinear_arith);
    assert(i * cfg.retry_backoff_ms >= 0) by (nonlinear_arith);
}

/// The values drawn by `rand::random` follow its standard distribution;
/// nothing is assumed of any one value.
pub assume_specification<T>[ rand::random::<T> ]() -> (r: T)
    where
        rand::distr::StandardUniform: rand::distr::Distribution<T>,
;

// ---------------------------------------------------------------------------
// The response body as lines
// ---------------------------------------------------------------------------

/// The non-empty segments of `s` split at every newline, with `cur`
/// prepended to the first segment: the text is walked from the left.
pub open spec fn spec_split_acc(s: Seq<u8>, cur: Seq<u8>) -> Seq<Seq<u8>>
    decreases s.len(),
{
    if s.len() == 0 {
        if cur.len() == 0 {
            Seq::empty()
        } else {
            seq![cur]
        }
    } else if s[0] == 10 {
        (if cur.len() == 0 {
            Seq::empty()
        } else {
            seq![cur]
        }) + spec_split_acc(s.drop_first(), Seq::empty())
    } else {
        spec_split_acc(s.drop_first(), cur.push(s[0]))
    }
}

/// The non-empty lines of newline-delimited text, in order.
pub open spec fn spec_split_lines(s: Seq<u8>) -> Seq<Seq<u8>> {
    spec_split_acc(s, Seq::empty())
}

/// Split a response body into its non-empty lines; empty segments,
/// including one after a trailing newline, are dropped.
pub fn split_ndjson(body: &[u8]) -> (r: Vec<Vec<u8>>)
    ensures
        r.deep_view() == spec_split_lines(body@),
{
    let n = body.len();
    let mut out: Vec<Vec<u8>> = Vec::new();
    let mut cur: Vec<u8> = Vec::new();
    let mut i: usize = 0;
    proof {
        assert(body@.skip(0) =~= body@);
        assert(out.deep_view() =~= Seq::<Seq<u8>>::empty());
        assert(out.deep_view() + spec_split_acc(body@, cur@) =~= spec_split_lines(body@));
    }
    while i < n
        invariant
            n == body@.len(),
            i <= n,
            spec_split_lines(body@) == out.deep_view() + spec_split_acc(
                body@.skip(i as int),
                cur@,
            ),
        decreases n - i,
    {
        proof {
            assert(body@.skip(i as int).drop_first() =~= body@.skip(i + 1));
            assert(body@.skip(i as int)[0] == body@[i as int]);
        }
        if body[i] == 10 {
            if cur.len() > 0 {
                let ghost prev_out = out.deep_view();
                let ghost prev_cur = cur@;
                let line = cur;
                cur = Vec::new();
                out.push(line);
                proof {
                    assert(out.deep_view() =~~= prev_out.push(prev_cur));
                    assert(cur@ =~= Seq::<u8>::empty());
                    assert(spec_split_acc(body@.skip(i as int), prev_cur) == seq![prev_cur]
                        + spec_split_acc(body@.skip(i + 1), Seq::empty()));
                    assert(prev_out + (seq![prev_cur] + spec_split_acc(
                        body@.skip(i + 1),
                        Seq::empty(),
                    )) =~= prev_out.push(prev_cur) + spec_split_acc(
                        body@.skip(i + 1),
                        Seq::empty(),
                    ));
                    assert(out.deep_view() + spec_split_acc(body@.skip(i + 1), cur@)
                        =~= spec_split_lines(body@));
                }
            } else {
                proof {
                    assert(cur@ =~= Seq::<u8>::empty());
                    assert(spec_split_acc(body@.skip(i as int), cur@)
                        == Seq::<Seq<u8>>::empty() + spec_split_acc(
                        body@.skip(i + 1),
                        Seq::empty(),
                    ));
                    assert(Seq::<Seq<u8>>::empty() + spec_split_acc(
                        body@.skip(i + 1),
                        Seq::empty(),
                    ) =~= spec_split_acc(body@.skip(i + 1), Seq::empty()));
                    assert(out.deep_view() + spec_split_acc(body@.skip(i + 1), cur@)
                        =~= spec_split_lines(body@));
                }
            }
        } else {
            cur.push(body[i]);
        }
        i += 1;
    }
    proof {
        assert(body@.skip(n as int) =~= Seq::<u8>::empty());
    }
    if cur.len() > 0 {
        let ghost prev_out = out.deep_view();
        let ghost prev_cur = cur@;
        out.push(cur);
        proof {
            assert(out.deep_view() =~~= prev_out.push(prev_cur));
            assert(out.deep_view() =~= spec_split_lines(body@));
        }
    } else {
        proof {
            assert(out.deep_view() =~= spec_split_lines(body@));
        }
    }
    out
}

/// Parse the height endpoint's body: decimal text for the latest
/// finalized block number.
pub fn parse_finalized_height(body: &[u8]) -> (r: Result<u64, Error>)
    ensures
        match crate::json::spec_parse_u64(body@) {
            Some(v) => r == Ok::<u64, Error>(v),
            None => r is Err,
        },
{
    match crate::util::parse_u64_digits(body) {
        Ok(v) => Ok(v),
        Err(e) => Err(e.context("parse height as number")),
    }
}

// ---------------------------------------------------------------------------
// Assembling one response from its decoded lines
// ---------------------------------------------------------------------------

/// Decode every block object of one EVM response into one aligned batch
/// set.  Succeeds exactly when every line decodes; the rows of line `i`
/// follow the rows of the lines before it, and blocks row `i` is line
/// `i`'s header.
pub fn evm_collect_response(lines: &Vec<json::JsonValue>) -> (r: Result<evm::ArrowResponse, Error>)
    ensures
        r is Ok <==> (forall|i: int|
            0 <= i < lines@.len() ==> evm::evm_block_ok(#[trigger] lines@[i])),
        r is Ok ==> {
            &&& evm::response_aligned(r->Ok_0)
            &&& r->Ok_0.blocks@.len() == lines@.len()
            &&& forall|i: int|
                0 <= i < lines@.len() ==> evm::block_row_matches(
                    r->Ok_0.blocks@[i],
                    evm::header_of(#[trigger] lines@[i]),
                )
        },
{
    let mut parser = evm::ArrowResponseParser::new();
    let n = lines.len();
    let mut i: usize = 0;
    while i < n
        invariant
            n == lines@.len(),
            i <= n,
            parser.wf(),
            parser.blocks@.len() == i,
            forall|j: int| 0 <= j < i ==> evm::evm_block_ok(#[trigger] lines@[j]),
            forall|j: int|
                0 <= j < i ==> evm::block_row_matches(
                    parser.blocks@[j],
                    evm::header_of(#[trigger] lines@[j]),
                ),
        decreases n - i,
    {
        match parser.parse_tape(&lines[i]) {
            Ok(()) => {},
            Err(e) => { return Err(e.context("parse tape")); },
        }
        i += 1;
    }
    Ok(parser.finish())
}

/// Decode every slot object of one Solana response into one aligned
/// batch set, as `evm_collect_response` does for EVM responses.
pub fn svm_collect_response(lines: &Vec<json::JsonValue>) -> (r: Result<svm::ArrowResponse, Error>)
    ensures
        r is Ok <==> (forall|i: int|
            0 <= i < lines@.len() ==> svm::svm_block_ok(#[trigger] lines@[i])),
        r is Ok ==> {
            &&& svm::response_aligned(r->Ok_0)
            &&& r->Ok_0.blocks@.len() == lines@.len()
            &&& forall|i: int|
                0 <= i < lines@.len() ==> svm::block_row_matches(
                    r->Ok_0.blocks@[i],
                    svm::header_of(#[trigger] lines@[i]),
                )
        },
{
    let mut parser = svm::ArrowResponseParser::new();
    let n = lines.len();
    let mut i: usize = 0;
    while i < n
        invariant
            n == lines@.len(),
            i <= n,
            parser.wf(),
            parser.blocks@.len() == i,
            forall|j: int| 0 <= j < i ==> svm::svm_block_ok(#[trigger] lines@[j]),
            forall|j: int|
                0 <= j < i ==> svm::block_row_matches(
                    parser.blocks@[j],
                    svm::header_of(#[trigger] lines@[j]),
                ),
        decreases n - i,
    {
        match parser.parse_tape(&lines[i]) {
            Ok(()) => {},
            Err(e) => { return Err(e.context("parse tape")); },
        }
        i += 1;
    }
    Ok(parser.finish())
}

/// What the stream driver does after one query round.
pub enum StreamStep {
    /// The stream is complete: close the channel without sending.
    Halt,
    /// Send this error, then close the channel.
    Fail(Error),
    /// At the head: sleep this many milliseconds and ask again with the
    /// same `from_block`.
    Poll(u64),
    /// Deliver this batch; the cursor has been advanced past it.
    Emit(evm::ArrowResponse),
}

/// Whether the stream is past its upper bound and must stop before the
/// next request.
pub fn evm_stream_done(query: &evm::Query) -> (r: bool)
    ensures
        r == (query.to_block matches Some(tb) && tb < query.from_block),
{
    match query.to_block {
        Some(tb) => tb < query.from_block,
        None => false,
    }
}

/// Force the block-number mask bit on: the driver needs every response
/// to carry block numbers to advance its cursor.  Nothing else changes.
pub fn evm_prepare_stream_query(query: &mut evm::Query)
    ensures
        final(query).fields.block == (evm::BlockFields {
            number: true,
            ..old(query).fields.block
        }),
        final(query).fields.log == old(query).fields.log,
        final(query).fields.transaction == old(query).fields.transaction,
        final(query).fields.trace == old(query).fields.trace,
        final(query).type_ == old(query).type_,
        final(query).from_block == old(query).from_block,
        final(query).to_block == old(query).to_block,
        final(query).include_all_blocks == old(query).include_all_blocks,
        final(query).logs == old(query).logs,
        final(query).transactions == old(query).transactions,
        final(query).traces == old(query).traces,
        final(query).state_diffs == old(query).state_diffs,
{
    query.fields.block.number = true;
}

/// One round of the stream driver, given what the query returned.
///
/// A transport or decode error is sent and ends the stream.  An
/// at-head reply (no content) either ends the stream, when
/// `stop_on_head` is set, or asks for one poll sleep of
/// `head_poll_interval_millis` with the query unchanged.  A batch
/// advances `from_block` to one past the batch's last block and is
/// delivered.
pub fn evm_stream_step(
    query: &mut evm::Query,
    config: &StreamConfig,
    outcome: Result<Option<evm::ArrowResponse>, Error>,
) -> (r: StreamStep)
    ensures
        match outcome {
            Err(_) => r is Fail && *final(query) == *old(query),
            Ok(None) => *final(query) == *old(query) && (if config.stop_on_head {
                r is Halt
            } else {
                r matches StreamStep::Poll(ms) && ms == config.head_poll_interval_millis
            }),
            Ok(Some(resp)) => match evm::spec_next_block(resp.blocks@) {
                Ok(nb) => {
                    &&& r matches StreamStep::Emit(b) && b == resp
                    &&& final(query).from_block == nb
                    &&& final(query).type_ == old(query).type_
                    &&& final(query).to_block == old(query).to_block
                    &&& final(query).include_all_blocks == old(query).include_all_blocks
                    &&& final(query).fields == old(query).fields
                    &&& final(query).logs == old(query).logs
                    &&& final(query).transactions == old(query).transactions
                    &&& final(query).traces == old(query).traces
                    &&& final(query).state_diffs == old(query).state_diffs
                },
                Err(_) => r is Fail && *final(query) == *old(query),
            },
        },
{
    match outcome {
        Err(e) => StreamStep::Fail(e),
        Ok(None) => {
            if config.stop_on_head {
                StreamStep::Halt
            } else {
                StreamStep::Poll(config.head_poll_interval_millis)
            }
        },
        Ok(Some(resp)) => {
            match resp.next_block() {
                Ok(nb) => {
                    query.from_block = nb;
                    StreamStep::Emit(resp)
                },
                Err(e) => StreamStep::Fail(e),
            }
        },
    }
}

/// The `from_block` the driver uses for request `i` of a stream: the
/// starting block first, then always one past the previous batch's last
/// block.
pub open spec fn spec_cursor(from0: u64, lasts: Seq<u64>, i: int) -> int
    decreases i,
{
    if i <= 0 {
        from0 as int
    } else {
        lasts[i - 1] + 1
    }
}

/// Monotone stream cursor.  In a stream with no errors that delivered
/// batches whose first and last block numbers are `firsts` and `lasts`,
/// where the service starts each batch at the requested `from_block`
/// (`firsts[i]` is the cursor of round `i`) and blocks within a batch
/// are in order (`firsts[i] <= lasts[i]`), the batch starts are strictly
/// increasing, and each batch starts exactly one past the previous
/// batch's last block.
pub proof fn lemma_monotone_cursor(from0: u64, firsts: Seq<u64>, lasts: Seq<u64>)
    requires
        firsts.len() == lasts.len(),
        forall|i: int|
            0 <= i < firsts.len() ==> #[trigger] firsts[i] as int == spec_cursor(from0, lasts, i),
        forall|i: int| 0 <= i < firsts.len() ==> #[trigger] firsts[i] <= lasts[i],
    ensures
        forall|i: int| 0 <= i < firsts.len() - 1 ==> firsts[i + 1] == lasts[i] + 1,
        forall|i: int, j: int| 0 <= i < j < firsts.len() ==> firsts[i] < firsts[j],
{
    assert forall|i: int, j: int| 0 <= i < j < firsts.len() implies firsts[i] < firsts[j] by {
        lemma_cursor_strictly_increases(from0, firsts, lasts, i, j);
    }
}

proof fn lemma_cursor_strictly_increases(from0: u64, firsts: Seq<u64>, lasts: Seq<u64>, i: int, j: int)
    requires
        firsts.len() == lasts.len(),
        forall|k: int|
            0 <= k < firsts.len() ==> #[trigger] firsts[k] as int == spec_cursor(from0, lasts, k),
        forall|k: int| 0 <= k < firsts.len() ==> #[trigger] firsts[k] <= lasts[k],
        0 <= i < j < firsts.len(),
    ensures
        firsts[i] < firsts[j],
    decreases j - i,
{
    if j == i + 1 {
        assert(firsts[j] as int == lasts[i] + 1);
    } else {
        lemma_cursor_strictly_increases(from0, firsts, lasts, i, j - 1);
        assert(firsts[j] as int == lasts[j - 1] + 1);
    }
}

/// The wait before retry `i` under entropy word `e`.
pub open spec fn delay_at(cfg: ClientConfig, i: nat, e: u64) -> int {
    base_at(cfg, i) + e % cfg.retry_backoff_ms
}

/// The whole wait of a retry run that failed `es.len()` times, one
/// entropy word per failure.
pub open spec fn total_delay(cfg: ClientConfig, es: Seq<u64>) -> int
    decreases es.len(),
{
    if es.len() == 0 {
        0
    } else {
        total_delay(cfg, es.drop_last()) + delay_at(
            cfg,
            (es.len() - 1) as nat,
            es.last(),
        )
    }
}

/// The sum of the bases alone of the first `k` retries.
pub open spec fn total_base(cfg: ClientConfig, k: nat) -> int
    decreases k,
{
    if k == 0 {
        0
    } else {
        total_base(cfg, (k - 1) as nat) + base_at(cfg, (k - 1) as nat)
    }
}

/// Retry algebra: a call that sees `k` failures and then succeeds makes
/// `k + 1` attempts — the driving loop tries once after each of the `k`
/// waits and once before any — and its whole wait lies in
/// `[sum of bases, sum of bases + k * backoff)`: each wait is its base
/// plus an additive jitter below one backoff.
pub proof fn lemma_retry_algebra(cfg: ClientConfig, es: Seq<u64>)
    requires
        cfg.valid(),
    ensures
        total_base(cfg, es.len()) <= total_delay(cfg, es),
        es.len() > 0 ==> total_delay(cfg, es) < total_base(cfg, es.len()) + es.len()
            * cfg.retry_backoff_ms,
    decreases es.len(),
{
    if es.len() == 0 {
        assert(0 * cfg.retry_backoff_ms == 0) by (nonlinear_arith);
    } else {
        lemma_retry_algebra(cfg, es.drop_last());
        let k = (es.len() - 1) as nat;
        assert(es.drop_last().len() == k);
        assert(es.last() % cfg.retry_backoff_ms < cfg.retry_backoff_ms);
        assert((k + 1) * cfg.retry_backoff_ms == k * cfg.retry_backoff_ms
            + cfg.retry_backoff_ms) by (nonlinear_arith);
        assert(total_delay(cfg, es) == total_delay(cfg, es.drop_last()) + delay_at(
            cfg,
            k,
            es.last(),
        ));
        assert(total_base(cfg, es.len()) == total_base(cfg, k) + base_at(cfg, k));
        assert(delay_at(cfg, k, es.last()) >= base_at(cfg, k));
        assert(delay_at(cfg, k, es.last()) < base_at(cfg, k) + cfg.retry_backoff_ms);
        assert(es.len() == k + 1);
        assert(es.len() * cfg.retry_backoff_ms == k * cfg.retry_backoff_ms
            + cfg.retry_backoff_ms) by (nonlinear_arith)
            requires
                es.len() == k + 1,
        ;
        assert(es.drop_last().len() * cfg.retry_backoff_ms == k * cfg.retry_backoff_ms)
            by (nonlinear_arith)
            requires
                es.drop_last().len() == k,
        ;
        assert(total_delay(cfg, es) < total_base(cfg, es.len()) + es.len()
            * cfg.retry_backoff_ms);
    }
}

} // verus!
