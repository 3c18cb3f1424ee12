//! The per-field state machine: classification of a field, accumulation of its
//! chunks, promotion from memory to a spill file, and the size checks.
//!
//! The machine does no I/O. Each call of `Accumulator::feed` returns the
//! `Action` that the caller performs on the field's spill file before it
//! feeds the next chunk.

use crate::config::{ConfigView, PartsConfig};
use vstd::prelude::*;

verus! {

/// Where a field's bytes are kept.
#[derive(Debug, Clone, Copy, PartialEq, Eq, Structural)]
pub enum BufferKind {
    /// In memory.
    Cursor,
    /// In an anonymous temporary file.
    SpillFile,
}

/// The buffer in which a field starts, before any of its bytes arrive.
pub open spec fn initial_kind(cfg: ConfigView, name: Seq<char>, has_file_name: bool) -> BufferKind {
    if has_file_name && !cfg.marks_text(name) {
        BufferKind::SpillFile
    } else if !has_file_name && cfg.marks_file(name) {
        BufferKind::SpillFile
    } else {
        BufferKind::Cursor
    }
}

/// Decides where a field named `name` starts: a declared file name puts it in a
/// spill file unless the name is listed as text; without one, a name listed as a
/// file field does; every other field starts in memory.
pub fn classify(config: &PartsConfig, name: &str, has_file_name: bool) -> (r: BufferKind)
    ensures
        r == initial_kind(config@, name@, has_file_name),
{
    if has_file_name {
        if config.is_text_field(name) {
            BufferKind::Cursor
        } else {
            BufferKind::SpillFile
        }
    } else if config.is_file_field(name) {
        BufferKind::SpillFile
    } else {
        BufferKind::Cursor
    }
}

/// The state of one field.
pub ghost enum FieldState {
    /// Still taking chunks. `memory` holds the bytes kept in memory, `file` the
    /// bytes handed out for the spill file, in order, and `seen` the number of
    /// bytes received.
    Accumulating { spilled: bool, memory: Seq<u8>, file: Seq<u8>, seen: nat },
    /// The field grew past the file limit `limit`.
    TooLarge { limit: usize },
}

impl FieldState {
    /// The bytes the field holds so far, wherever they are kept.
    pub open spec fn content(self) -> Seq<u8> {
        match self {
            FieldState::Accumulating { spilled, memory, file, .. } => if spilled {
                file
            } else {
                memory
            },
            FieldState::TooLarge { .. } => Seq::empty(),
        }
    }

    pub open spec fn is_spilled(self) -> bool {
        match self {
            FieldState::Accumulating { spilled, .. } => spilled,
            FieldState::TooLarge { .. } => false,
        }
    }
}

/// The state of a field before its first chunk.
pub open spec fn initial_state(kind: BufferKind) -> FieldState {
    FieldState::Accumulating {
        spilled: kind == BufferKind::SpillFile,
        memory: Seq::empty(),
        file: Seq::empty(),
        seen: 0,
    }
}

/// The state after one more chunk.
///
/// The chunk's length is added to the count; a field still in memory whose
/// count passes the text limit moves its bytes to a spill file; a field in a
/// spill file whose count passes the file limit becomes too large; otherwise
/// the chunk is appended where the field's bytes are kept.
pub open spec fn step(s: FieldState, cfg: ConfigView, chunk: Seq<u8>) -> FieldState {
    match s {
        FieldState::TooLarge { .. } => s,
        FieldState::Accumulating { spilled, memory, file, seen } => {
            let seen2 = seen + chunk.len();
            let promote = !spilled && match cfg.text_limit {
                Some(t) => seen2 > t,
                None => false,
            };
            let spilled2 = spilled || promote;
            let oversize = spilled2 && match cfg.file_limit {
                Some(l) => seen2 > l,
                None => false,
            };
            if oversize {
                FieldState::TooLarge { limit: cfg.file_limit->Some_0 }
            } else if promote {
                FieldState::Accumulating {
                    spilled: true,
                    memory: Seq::empty(),
                    file: file + memory + chunk,
                    seen: seen2,
                }
            } else if spilled {
                FieldState::Accumulating { spilled, memory, file: file + chunk, seen: seen2 }
            } else {
                FieldState::Accumulating { spilled, memory: memory + chunk, file, seen: seen2 }
            }
        },
    }
}

/// The state after each chunk of `chunks` in turn.
pub open spec fn run(s: FieldState, cfg: ConfigView, chunks: Seq<Seq<u8>>) -> FieldState
    decreases chunks.len(),
{
    if chunks.len() == 0 {
        s
    } else {
        step(run(s, cfg, chunks.drop_last()), cfg, chunks.last())
    }
}

/// All chunks, joined in order.
pub open spec fn joined(chunks: Seq<Seq<u8>>) -> Seq<u8>
    decreases chunks.len(),
{
    if chunks.len() == 0 {
        Seq::empty()
    } else {
        joined(chunks.drop_last()) + chunks.last()
    }
}

/// What the caller does with the spill file after a chunk was fed.
#[derive(Debug)]
pub enum Action {
    /// Nothing: the chunk was kept in memory.
    Buffered,
    /// Append these bytes to the field's spill file.
    Write(Vec<u8>),
    /// Create the field's spill file, then write these bytes to it: the bytes
    /// held in memory so far followed by the chunk.
    Spill(Vec<u8>),
    /// The field is too large; read no more of its chunks.
    Stop(usize),
}

/// How `a` follows from the move from `before` to `after`.
pub open spec fn action_fits(a: Action, before: FieldState, after: FieldState) -> bool {
    match a {
        Action::Buffered => after is Accumulating && !after.is_spilled(),
        Action::Write(_) => before.is_spilled() && after is Accumulating,
        Action::Spill(_) => before is Accumulating && !before.is_spilled() && after.is_spilled(),
        Action::Stop(l) => after == (FieldState::TooLarge { limit: l }),
    }
}

/// The end of a field's accumulation.
#[derive(Debug)]
pub enum Outcome {
    /// The field stayed in memory and holds these bytes.
    Text(Vec<u8>),
    /// The field's bytes are in its spill file.
    File,
    /// The field grew past this file limit.
    TooLarge(usize),
}

/// Accumulates one field's chunks.
pub struct Accumulator {
    spilled: bool,
    memory: Vec<u8>,
    seen: usize,
    too_large: Option<usize>,
    file: Ghost<Seq<u8>>,
}

impl View for Accumulator {
    type V = FieldState;

    closed spec fn view(&self) -> FieldState {
        match self.too_large {
            Some(l) => FieldState::TooLarge { limit: l },
            None => FieldState::Accumulating {
                spilled: self.spilled,
                memory: self.memory@,
                file: self.file@,
                seen: self.seen as nat,
            },
        }
    }
}

impl Accumulator {
    /// A field that starts in the buffer `kind`, with no bytes yet.
    pub fn new(kind: BufferKind) -> (r: Self)
        ensures
            r@ == initial_state(kind),
    {
        Accumulator {
            spilled: match kind {
                BufferKind::SpillFile => true,
                BufferKind::Cursor => false,
            },
            memory: Vec::new(),
            seen: 0,
            too_large: None,
            file: Ghost(Seq::empty()),
        }
    }

    /// Whether `n` more bytes can still be counted: the count of bytes
    /// received must fit in a `usize`.
    pub fn can_take(&self, n: usize) -> (r: bool)
        ensures
            r == match self@ {
                FieldState::Accumulating { seen, .. } => seen + n <= usize::MAX,
                FieldState::TooLarge { .. } => true,
            },
    {
        self.too_large.is_some() || n <= usize::MAX - self.seen
    }

    /// Takes the next chunk of the field and says what to do with the spill file.
    pub fn feed(&mut self, config: &PartsConfig, chunk: Vec<u8>) -> (r: Action)
        requires
            match old(self)@ {
                FieldState::Accumulating { seen, .. } => seen + chunk@.len() <= usize::MAX,
                FieldState::TooLarge { .. } => true,
            },
        ensures
            final(self)@ == step(old(self)@, config@, chunk@),
            action_fits(r, old(self)@, final(self)@),
            r matches Action::Write(b) ==> b@ == chunk@,
            r matches Action::Spill(b) ==> b@ == old(self)@.content() + chunk@,
    {
        if let Some(l) = self.too_large {
            return Action::Stop(l);
        }
        let seen = self.seen + chunk.len();
        let promote = !self.spilled && match config.text_limit() {
            Some(t) => seen > t,
            None => false,
        };
        let oversize = (self.spilled || promote) && match config.file_limit() {
            Some(l) => seen > l,
            None => false,
        };
        self.seen = seen;
        if oversize {
            let l = config.file_limit().unwrap();
            self.too_large = Some(l);
            return Action::Stop(l);
        }
        if promote {
            let mut bytes: Vec<u8> = Vec::new();
            std::mem::swap(&mut bytes, &mut self.memory);
            let mut chunk = chunk;
            proof {
                self.file@ = self.file@ + bytes@ + chunk@;
            }
            bytes.append(&mut chunk);
            self.spilled = true;
            Action::Spill(bytes)
        } else if self.spilled {
            proof {
                self.file@ = self.file@ + chunk@;
            }
            Action::Write(chunk)
        } else {
            let mut chunk = chunk;
            self.memory.append(&mut chunk);
            Action::Buffered
        }
    }

    /// Ends the field once its chunks are exhausted.
    pub fn finish(self) -> (r: Outcome)
        ensures
            match self@ {
                FieldState::TooLarge { limit } => r == Outcome::TooLarge(limit),
                FieldState::Accumulating { spilled, memory, .. } => if spilled {
                    r is File
                } else {
                    r matches Outcome::Text(b) && b@ == memory
                },
            },
    {
        match self.too_large {
            Some(l) => Outcome::TooLarge(l),
            None => if self.spilled {
                Outcome::File
            } else {
                Outcome::Text(self.memory)
            },
        }
    }
}

/// What holds of every state that a run reaches: a field that is still taking
/// chunks has counted all their bytes and holds all of them, in order, in the
/// one place where it keeps them; a field that is too large carries the file
/// limit of the configuration.
pub proof fn lemma_run_invariant(cfg: ConfigView, kind: BufferKind, chunks: Seq<Seq<u8>>)
    ensures
        match run(initial_state(kind), cfg, chunks) {
            FieldState::Accumulating { spilled, memory, file, seen } => {
                &&& seen == joined(chunks).len()
                &&& spilled ==> memory.len() == 0 && file == joined(chunks)
                &&& !spilled ==> file.len() == 0 && memory == joined(chunks)
                &&& kind == BufferKind::SpillFile ==> spilled
            },
            FieldState::TooLarge { limit } => cfg.file_limit == Some(limit),
        },
    decreases chunks.len(),
{
    if chunks.len() > 0 {
        lemma_run_invariant(cfg, kind, chunks.drop_last());
        let prev = run(initial_state(kind), cfg, chunks.drop_last());
        if let FieldState::Accumulating { spilled, memory, file, seen } = prev {
            if spilled {
                assert(Seq::<u8>::empty() + file == file);
            } else {
                assert(file + memory == memory);
            }
        }
    }
}

/// A field that reaches the file limit only once it is in a spill file:
/// while the bytes received stay within the file limit, the field is never
/// too large.
proof fn lemma_within_file_limit(cfg: ConfigView, kind: BufferKind, chunks: Seq<Seq<u8>>)
    requires
        cfg.file_limit matches Some(l) ==> joined(chunks).len() <= l,
    ensures
        run(initial_state(kind), cfg, chunks) is Accumulating,
    decreases chunks.len(),
{
    if chunks.len() > 0 {
        assert(joined(chunks).len() == joined(chunks.drop_last()).len() + chunks.last().len());
        lemma_within_file_limit(cfg, kind, chunks.drop_last());
        lemma_run_invariant(cfg, kind, chunks.drop_last());
    }
}

/// A field whose bytes stay within every configured limit ends where it
/// started, holding exactly its chunks joined in order.
pub proof fn lemma_within_limits_keeps_bytes(
    cfg: ConfigView,
    kind: BufferKind,
    chunks: Seq<Seq<u8>>,
)
    requires
        cfg.text_limit matches Some(t) ==> joined(chunks).len() <= t,
        cfg.file_limit matches Some(l) ==> joined(chunks).len() <= l,
    ensures
        run(initial_state(kind), cfg, chunks) is Accumulating,
        run(initial_state(kind), cfg, chunks).is_spilled() == (kind == BufferKind::SpillFile),
        run(initial_state(kind), cfg, chunks).content() == joined(chunks),
    decreases chunks.len(),
{
    lemma_within_file_limit(cfg, kind, chunks);
    lemma_run_invariant(cfg, kind, chunks);
    if chunks.len() > 0 {
        assert(joined(chunks).len() == joined(chunks.drop_last()).len() + chunks.last().len());
        lemma_within_limits_keeps_bytes(cfg, kind, chunks.drop_last());
    }
}

/// A field that starts in memory and grows past the text limit, but not past
/// the file limit, ends in a spill file that holds all its chunks joined in
/// order, those received before the promotion included.
pub proof fn lemma_promotion_keeps_bytes(cfg: ConfigView, chunks: Seq<Seq<u8>>)
    requires
        cfg.text_limit matches Some(t) && joined(chunks).len() > t,
        cfg.file_limit matches Some(l) ==> joined(chunks).len() <= l,
    ensures
        run(initial_state(BufferKind::Cursor), cfg, chunks) is Accumulating,
        run(initial_state(BufferKind::Cursor), cfg, chunks).is_spilled(),
        run(initial_state(BufferKind::Cursor), cfg, chunks).content() == joined(chunks),
{
    let kind = BufferKind::Cursor;
    lemma_within_file_limit(cfg, kind, chunks);
    lemma_run_invariant(cfg, kind, chunks);
    if chunks.len() > 0 {
        assert(joined(chunks).len() == joined(chunks.drop_last()).len() + chunks.last().len());
        lemma_run_invariant(cfg, kind, chunks.drop_last());
    }
}

/// A field that is in a spill file by the time its bytes pass the file limit,
/// because it started there or because it also passed the text limit, ends
/// too large, carrying the configured file limit.
pub proof fn lemma_oversize_is_too_large(cfg: ConfigView, kind: BufferKind, chunks: Seq<Seq<u8>>)
    requires
        cfg.file_limit matches Some(l) && joined(chunks).len() > l,
        kind == BufferKind::SpillFile || (cfg.text_limit matches Some(t) && joined(chunks).len()
            > t),
    ensures
        run(initial_state(kind), cfg, chunks) == (FieldState::TooLarge {
            limit: cfg.file_limit->Some_0,
        }),
{
    lemma_run_invariant(cfg, kind, chunks);
    if chunks.len() > 0 {
        assert(joined(chunks).len() == joined(chunks.drop_last()).len() + chunks.last().len());
        lemma_run_invariant(cfg, kind, chunks.drop_last());
    }
}

} // verus!
