//! Key events, and the decoding of the terminal's byte stream into them.
//!
//! The decoder is a state machine. It never reads the terminal itself: it
//! tells its caller which read it needs next, and the caller hands the
//! outcome of that read back.

use vstd::prelude::*;

verus! {

/// A cursor motion requested by a key.
#[derive(Clone, Copy, Debug, PartialEq, Eq, Structural)]
pub enum Motion {
    Up,
    Down,
    Left,
    Right,
    PgUp,
    PgDn,
    Home,
    End,
}

/// One decoded input event.
#[derive(Clone, Copy, Debug, PartialEq, Eq, Structural)]
pub enum Key {
    Printable(char),
    Move(Motion),
    Control(char),
    Delete,
    Backspace,
    Newline,
    Escape,
    Tab,
}

/// What can go wrong around the editing core.
#[derive(Clone, Copy, Debug, PartialEq, Eq, Structural)]
pub enum Failure {
    /// The terminal's attributes could not be read or set, or the size of
    /// its window could not be found out.
    TerminalUnavailable,
    /// Reading the input or writing a file failed.
    IoFailure,
}

impl Failure {
    /// Whether the editor has to end after this failure: it cannot go on
    /// without its terminal, but it can after a failed read or write.
    pub fn is_fatal(self) -> (fatal: bool)
        ensures
            fatal == (self == Failure::TerminalUnavailable),
    {
        match self {
            Failure::TerminalUnavailable => true,
            Failure::IoFailure => false,
        }
    }
}

/// What the decoder needs from its caller next.
#[derive(Clone, Copy, Debug, PartialEq, Eq, Structural)]
pub enum Step {
    /// Read one byte, waiting until there is one.
    Wait,
    /// Read one byte if one arrives within the poll timeout.
    Peek,
    /// Nothing: a key is decoded.
    Done(Key),
}

/// The byte that starts an escape sequence.
pub const ESCAPE: u8 = 0x1b;

/// How many bytes behind the escape byte the decoder looks at.
pub const LOOKAHEAD: usize = 3;

/// The key that a byte outside an escape sequence stands for.
pub open spec fn plain_key(byte: u8) -> Key {
    if byte == 127 {
        Key::Backspace
    } else if byte == '\r' as u8 {
        Key::Newline
    } else if byte == '\t' as u8 {
        Key::Tab
    } else if byte < 32 {
        Key::Control((byte + 64) as char)
    } else {
        Key::Printable(byte as char)
    }
}

/// The key that the two bytes `b1` and `b2` behind an escape byte stand
/// for, if they are a whole sequence.
pub open spec fn short_sequence(b1: u8, b2: u8) -> Option<Key> {
    if b1 == '[' as u8 {
        if b2 == 'A' as u8 {
            Some(Key::Move(Motion::Up))
        } else if b2 == 'B' as u8 {
            Some(Key::Move(Motion::Down))
        } else if b2 == 'C' as u8 {
            Some(Key::Move(Motion::Right))
        } else if b2 == 'D' as u8 {
            Some(Key::Move(Motion::Left))
        } else if b2 == 'H' as u8 {
            Some(Key::Move(Motion::Home))
        } else if b2 == 'F' as u8 {
            Some(Key::Move(Motion::End))
        } else {
            None
        }
    } else if b1 == 'O' as u8 {
        if b2 == 'H' as u8 {
            Some(Key::Move(Motion::Home))
        } else if b2 == 'F' as u8 {
            Some(Key::Move(Motion::End))
        } else {
            None
        }
    } else {
        None
    }
}

/// The key that the three bytes `b1`, `b2` and `b3` behind an escape byte
/// stand for, if they are a whole sequence: a bracket, a digit and a tilde.
pub open spec fn long_sequence(b1: u8, b2: u8, b3: u8) -> Option<Key> {
    if b1 == '[' as u8 && b3 == '~' as u8 {
        if b2 == '1' as u8 || b2 == '7' as u8 {
            Some(Key::Move(Motion::Home))
        } else if b2 == '4' as u8 || b2 == '8' as u8 {
            Some(Key::Move(Motion::End))
        } else if b2 == '5' as u8 {
            Some(Key::Move(Motion::PgUp))
        } else if b2 == '6' as u8 {
            Some(Key::Move(Motion::PgDn))
        } else if b2 == '3' as u8 {
            Some(Key::Delete)
        } else {
            None
        }
    } else {
        None
    }
}

/// What an escape byte followed by the three reads `b1`, `b2` and `b3`
/// decodes to: the key, and how many of the three bytes belong to it. A read
/// that timed out is `None`.
///
/// A whole sequence of two bytes gives its key and leaves the third read
/// over. A whole sequence of three bytes gives its key. Anything else gives
/// a plain Escape, to which none of the bytes belongs.
pub open spec fn escape_outcome(b1: Option<u8>, b2: Option<u8>, b3: Option<u8>) -> (Key, nat) {
    if b1.is_some() && b2.is_some() && short_sequence(b1.unwrap(), b2.unwrap()).is_some() {
        (short_sequence(b1.unwrap(), b2.unwrap()).unwrap(), 2)
    } else if b1.is_some() && b2.is_some() && b3.is_some() && long_sequence(
        b1.unwrap(),
        b2.unwrap(),
        b3.unwrap(),
    ).is_some() {
        (long_sequence(b1.unwrap(), b2.unwrap(), b3.unwrap()).unwrap(), 3)
    } else {
        (Key::Escape, 0)
    }
}

/// The replay stack `pending` after the reads `left` were put back on it:
/// those that timed out are left out, and the earliest byte ends on top, so
/// that the bytes are replayed in the order of their arrival.
pub open spec fn put_back(pending: Seq<u8>, left: Seq<Option<u8>>) -> Seq<u8>
    decreases left.len(),
{
    if left.len() == 0 {
        pending
    } else {
        let below = put_back(pending, left.drop_first());
        match left[0] {
            Some(byte) => below.push(byte),
            None => below,
        }
    }
}

/// The decoder as a mathematical value.
pub struct DecoderView {
    /// The bytes to replay before the terminal is read again, as a stack:
    /// the last one is replayed first.
    pub pending: Seq<u8>,
    /// The reads behind an escape byte so far; `None` is a read that timed
    /// out.
    pub seen: Seq<Option<u8>>,
    /// Whether an escape byte was read whose sequence is not decoded yet.
    pub escaping: bool,
}

impl DecoderView {
    /// The decoder after it took from the replay stack what it still lacks
    /// of the reads behind an escape byte.
    pub open spec fn gather(self) -> DecoderView
        decreases self.pending.len(),
    {
        if self.seen.len() < LOOKAHEAD && self.pending.len() > 0 {
            (DecoderView {
                pending: self.pending.drop_last(),
                seen: self.seen.push(Some(self.pending.last())),
                ..self
            }).gather()
        } else {
            self
        }
    }

    /// The decoder after it decoded the reads behind an escape byte, and the
    /// key: the reads that do not belong to the key go back on the replay
    /// stack.
    pub open spec fn resolve(self) -> (DecoderView, Step) {
        let (key, used) = escape_outcome(self.seen[0], self.seen[1], self.seen[2]);
        (
            DecoderView {
                pending: put_back(self.pending, self.seen.skip(used as int)),
                seen: Seq::empty(),
                escaping: false,
            },
            Step::Done(key),
        )
    }

    /// How the decoder goes on behind an escape byte: it decodes once it has
    /// all the reads, and asks for one more until then.
    pub open spec fn follow(self) -> (DecoderView, Step) {
        let gathered = self.gather();
        if gathered.seen.len() >= LOOKAHEAD {
            gathered.resolve()
        } else {
            (gathered, Step::Peek)
        }
    }

    /// The decoder after it went as far as it can without the terminal, and
    /// what it needs next. Bytes on the replay stack are used before any
    /// read is asked for.
    pub open spec fn poll(self) -> (DecoderView, Step) {
        if self.escaping {
            self.follow()
        } else if self.pending.len() == 0 {
            (self, Step::Wait)
        } else if self.pending.last() == ESCAPE {
            (DecoderView { pending: self.pending.drop_last(), escaping: true, ..self }).follow()
        } else {
            (
                DecoderView { pending: self.pending.drop_last(), ..self },
                Step::Done(plain_key(self.pending.last())),
            )
        }
    }

    /// The decoder after it was handed the outcome of a read: behind an
    /// escape byte it is the next of the reads to decode; otherwise the
    /// byte, if there is one, is replayed after all that is on the stack.
    pub open spec fn supply(self, byte: Option<u8>) -> DecoderView {
        if self.escaping {
            DecoderView { seen: self.seen.push(byte), ..self }
        } else {
            match byte {
                Some(b) => DecoderView { pending: seq![b] + self.pending, ..self },
                None => self,
            }
        }
    }
}

/// The key that a byte outside an escape sequence stands for: 127 is
/// Backspace, carriage return is Newline, tab is Tab, any other byte below
/// 32 is the control key of the letter 64 above it, and everything else is
/// the character itself.
pub fn decode_byte(byte: u8) -> (key: Key)
    ensures
        key == plain_key(byte),
{
    if byte == 127 {
        Key::Backspace
    } else if byte == 0x0d {
        Key::Newline
    } else if byte == 0x09 {
        Key::Tab
    } else if byte < 32 {
        Key::Control((byte + 64) as char)
    } else {
        Key::Printable(byte as char)
    }
}

/// The bytes among `reads` that arrived, in the order of their arrival; a
/// read that timed out brought none.
pub open spec fn arrived(reads: Seq<Option<u8>>) -> Seq<u8>
    decreases reads.len(),
{
    if reads.len() == 0 {
        Seq::empty()
    } else {
        match reads[0] {
            Some(byte) => seq![byte] + arrived(reads.drop_first()),
            None => arrived(reads.drop_first()),
        }
    }
}

/// The bytes of the replay stack `pending` in the order in which they are
/// replayed: the last one first.
pub open spec fn replayed(pending: Seq<u8>) -> Seq<u8>
    decreases pending.len(),
{
    if pending.len() == 0 {
        Seq::empty()
    } else {
        seq![pending.last()] + replayed(pending.drop_last())
    }
}

/// A single read brings its byte, or nothing if it timed out.
pub proof fn lemma_arrived_one(read: Option<u8>)
    ensures
        arrived(seq![read]) == (match read {
            Some(byte) => seq![byte],
            None => Seq::empty(),
        }),
{
    assert(seq![read].drop_first() == Seq::<Option<u8>>::empty());
    assert(arrived(Seq::<Option<u8>>::empty()) == Seq::<u8>::empty());
}

/// The bytes of two runs of reads are those of the first and then those of
/// the second.
pub proof fn lemma_arrived_concat(first: Seq<Option<u8>>, second: Seq<Option<u8>>)
    ensures
        arrived(first + second) == arrived(first) + arrived(second),
    decreases first.len(),
{
    if first.len() > 0 {
        lemma_arrived_concat(first.drop_first(), second);
        assert((first + second).drop_first() == first.drop_first() + second);
    }
}

/// A byte that enters the replay stack at the bottom is replayed last.
pub proof fn lemma_replayed_bottom(pending: Seq<u8>, byte: u8)
    ensures
        replayed(seq![byte] + pending) == replayed(pending).push(byte),
    decreases pending.len(),
{
    let stack = seq![byte] + pending;
    if pending.len() == 0 {
        assert(stack.drop_last() == Seq::<u8>::empty());
        assert(replayed(Seq::<u8>::empty()) == Seq::<u8>::empty());
    } else {
        lemma_replayed_bottom(pending.drop_last(), byte);
        assert(stack.drop_last() == seq![byte] + pending.drop_last());
    }
}

/// Reads that were put back are replayed in the order of their arrival,
/// before what was on the stack.
pub proof fn lemma_put_back_replayed(pending: Seq<u8>, left: Seq<Option<u8>>)
    ensures
        replayed(put_back(pending, left)) == arrived(left) + replayed(pending),
    decreases left.len(),
{
    if left.len() > 0 {
        lemma_put_back_replayed(pending, left.drop_first());
        let below = put_back(pending, left.drop_first());
        if let Some(byte) = left[0] {
            assert(below.push(byte).drop_last() == below);
        }
    }
}

/// Putting reads back adds at most one byte for each read.
pub proof fn lemma_put_back_len(pending: Seq<u8>, left: Seq<Option<u8>>)
    ensures
        pending.len() <= put_back(pending, left).len() <= pending.len() + left.len(),
    decreases left.len(),
{
    if left.len() > 0 {
        lemma_put_back_len(pending, left.drop_first());
    }
}

impl DecoderView {
    /// The decoder is in a state that the protocol leads to: behind an
    /// escape byte the replay stack is used up and a read is still lacking;
    /// otherwise no reads are held, and the stack holds no more than was
    /// looked ahead.
    pub open spec fn well_formed(self) -> bool {
        if self.escaping {
            self.pending.len() == 0 && self.seen.len() < LOOKAHEAD
        } else {
            self.seen.len() == 0 && self.pending.len() <= LOOKAHEAD
        }
    }

    /// The bytes that the decoder holds and has not made a key of yet, in
    /// the order of their arrival: the escape byte of a sequence in
    /// progress, the reads behind it, and what is to be replayed.
    pub open spec fn held(self) -> Seq<u8> {
        (if self.escaping {
            seq![ESCAPE]
        } else {
            Seq::empty()
        }) + arrived(self.seen) + replayed(self.pending)
    }

    /// Gathering keeps the bytes that the decoder holds, and their order.
    pub proof fn lemma_gather_held(self)
        ensures
            self.gather().held() == self.held(),
        decreases self.pending.len(),
    {
        if self.seen.len() < LOOKAHEAD && self.pending.len() > 0 {
            let byte = self.pending.last();
            let next = DecoderView {
                pending: self.pending.drop_last(),
                seen: self.seen.push(Some(byte)),
                ..self
            };
            next.lemma_gather_held();
            lemma_arrived_concat(self.seen, seq![Some(byte)]);
            lemma_arrived_one(Some(byte));
            assert(self.seen.push(Some(byte)) == self.seen + seq![Some(byte)]);
        }
    }

    /// A byte that is handed in is held behind all that was held before; a
    /// read that timed out adds nothing.
    pub proof fn lemma_supply_held(self, byte: Option<u8>)
        requires
            self.well_formed(),
        ensures
            self.supply(byte).held() == (match byte {
                Some(b) => self.held().push(b),
                None => self.held(),
            }),
    {
        if self.escaping {
            lemma_arrived_concat(self.seen, seq![byte]);
            lemma_arrived_one(byte);
            assert(self.seen.push(byte) == self.seen + seq![byte]);
        } else if let Some(b) = byte {
            lemma_replayed_bottom(self.pending, b);
        }
    }

    /// No byte is lost and none changes its place: what the decoder holds
    /// after a poll is what it held before, but for the bytes at the front
    /// that made the key. A poll that asks for a read consumes nothing; a
    /// plain key and a plain Escape consume one byte, a sequence the escape
    /// byte and its own bytes.
    pub proof fn lemma_poll_held(self)
        requires
            self.well_formed(),
        ensures
            self.poll().0.held().len() <= self.held().len(),
            self.poll().0.held() == self.held().skip(
                self.held().len() - self.poll().0.held().len(),
            ),
            !(self.poll().1 is Done) ==> self.poll().0.held() == self.held(),
            self.poll().1 is Done ==> self.poll().0.held().len() < self.held().len(),
    {
        let held = self.held();
        if self.escaping || (self.pending.len() > 0 && self.pending.last() == ESCAPE) {
            let entered = if self.escaping {
                self
            } else {
                DecoderView { pending: self.pending.drop_last(), escaping: true, ..self }
            };
            assert(entered.held() == held);
            entered.lemma_gather_held();
            entered.lemma_gather();
            let gathered = entered.gather();
            if gathered.seen.len() >= LOOKAHEAD {
                let used = escape_outcome(gathered.seen[0], gathered.seen[1], gathered.seen[2]).1;
                let key_part = gathered.seen.take(used as int);
                let left = gathered.seen.skip(used as int);
                lemma_put_back_replayed(gathered.pending, left);
                lemma_arrived_concat(key_part, left);
                assert(key_part + left == gathered.seen);
                let front = seq![ESCAPE] + arrived(key_part);
                let back = arrived(left) + replayed(gathered.pending);
                assert(held == front + back);
                assert(gathered.resolve().0.held() == back);
            }
        } else if self.pending.len() > 0 {
            let after = DecoderView { pending: self.pending.drop_last(), ..self };
            assert(held == seq![self.pending.last()] + after.held());
        }
    }

    /// Gathering stops when the reads are complete or the replay stack is
    /// used up, and loses no byte.
    pub proof fn lemma_gather(self)
        ensures
            self.gather().escaping == self.escaping,
            self.gather().seen.len() + self.gather().pending.len() == self.seen.len()
                + self.pending.len(),
            self.gather().seen.len() >= self.seen.len(),
            self.gather().pending.len() == 0 || self.gather().seen.len() >= LOOKAHEAD,
            self.seen.len() <= LOOKAHEAD ==> self.gather().seen.len() <= LOOKAHEAD,
        decreases self.pending.len(),
    {
        if self.seen.len() < LOOKAHEAD && self.pending.len() > 0 {
            (DecoderView {
                pending: self.pending.drop_last(),
                seen: self.seen.push(Some(self.pending.last())),
                ..self
            }).lemma_gather();
        }
    }

    /// The terminal is read only when nothing is left to replay.
    pub proof fn lemma_reads_after_replay(self)
        ensures
            !(self.poll().1 is Done) ==> self.poll().0.pending.len() == 0,
    {
        self.lemma_gather();
        (DecoderView { pending: self.pending.drop_last(), escaping: true, ..self }).lemma_gather();
    }

    /// A caller that polls, hands in the read it was asked for and polls
    /// again keeps the decoder in a state that the protocol leads to: the
    /// replay stack never holds more than three bytes.
    pub proof fn lemma_protocol_keeps_well_formed(self, byte: Option<u8>)
        requires
            self.well_formed(),
        ensures
            self.poll().0.well_formed(),
            self.poll().1 == Step::Wait ==> byte.is_some() ==> self.poll().0.supply(byte).poll().0.well_formed(),
            self.poll().1 == Step::Peek ==> self.poll().0.supply(byte).poll().0.well_formed(),
    {
        self.lemma_gather();
        let entered = DecoderView { pending: self.pending.drop_last(), escaping: true, ..self };
        entered.lemma_gather();
        let gathered = if self.escaping { self.gather() } else { entered.gather() };
        if gathered.seen.len() >= LOOKAHEAD {
            let used = escape_outcome(gathered.seen[0], gathered.seen[1], gathered.seen[2]).1;
            lemma_put_back_len(gathered.pending, gathered.seen.skip(used as int));
        }
        let polled = self.poll().0;
        if self.poll().1 == Step::Peek || (self.poll().1 == Step::Wait && byte.is_some()) {
            let supplied = polled.supply(byte);
            supplied.lemma_gather();
            let next = DecoderView {
                pending: supplied.pending.drop_last(),
                escaping: true,
                ..supplied
            };
            next.lemma_gather();
            let again = if supplied.escaping { supplied.gather() } else { next.gather() };
            if again.seen.len() >= LOOKAHEAD {
                let used = escape_outcome(again.seen[0], again.seen[1], again.seen[2]).1;
                lemma_put_back_len(again.pending, again.seen.skip(used as int));
            }
        }
    }
}

/// Decodes what follows an escape byte: the key, and how many of the three
/// reads belong to it.
pub fn decode_escape(b1: Option<u8>, b2: Option<u8>, b3: Option<u8>) -> (out: (Key, usize))
    ensures
        out.0 == escape_outcome(b1, b2, b3).0,
        out.1 == escape_outcome(b1, b2, b3).1,
{
    // 0x5b is `[`, 0x4f is `O` and 0x7e is `~`; the second byte is a letter
    // from `A` (0x41) or a digit from `1` (0x31).
    match (b1, b2) {
        (Some(0x5b), Some(0x41)) => (Key::Move(Motion::Up), 2),
        (Some(0x5b), Some(0x42)) => (Key::Move(Motion::Down), 2),
        (Some(0x5b), Some(0x43)) => (Key::Move(Motion::Right), 2),
        (Some(0x5b), Some(0x44)) => (Key::Move(Motion::Left), 2),
        (Some(0x5b), Some(0x48)) => (Key::Move(Motion::Home), 2),
        (Some(0x5b), Some(0x46)) => (Key::Move(Motion::End), 2),
        (Some(0x4f), Some(0x48)) => (Key::Move(Motion::Home), 2),
        (Some(0x4f), Some(0x46)) => (Key::Move(Motion::End), 2),
        (Some(0x5b), Some(digit)) => {
            if b3 == Some(0x7e) {
                if digit == 0x31 || digit == 0x37 {
                    (Key::Move(Motion::Home), 3)
                } else if digit == 0x34 || digit == 0x38 {
                    (Key::Move(Motion::End), 3)
                } else if digit == 0x35 {
                    (Key::Move(Motion::PgUp), 3)
                } else if digit == 0x36 {
                    (Key::Move(Motion::PgDn), 3)
                } else if digit == 0x33 {
                    (Key::Delete, 3)
                } else {
                    (Key::Escape, 0)
                }
            } else {
                (Key::Escape, 0)
            }
        },
        _ => (Key::Escape, 0),
    }
}

/// The decoder of key events. It holds the bytes that were read ahead and
/// have to be replayed, and the state of an escape sequence in progress.
pub struct KeyDecoder {
    pending: Vec<u8>,
    seen: Vec<Option<u8>>,
    escaping: bool,
}

impl View for KeyDecoder {
    type V = DecoderView;

    closed spec fn view(&self) -> DecoderView {
        DecoderView { pending: self.pending@, seen: self.seen@, escaping: self.escaping }
    }
}

impl KeyDecoder {
    /// A decoder with nothing to replay and no sequence in progress.
    pub fn new() -> (decoder: Self)
        ensures
            decoder@ == (DecoderView {
                pending: Seq::empty(),
                seen: Seq::empty(),
                escaping: false,
            }),
    {
        KeyDecoder { pending: Vec::new(), seen: Vec::new(), escaping: false }
    }

    /// How many bytes wait to be replayed.
    pub fn pending_len(&self) -> (len: usize)
        ensures
            len == self@.pending.len(),
    {
        self.pending.len()
    }

    /// Takes from the replay stack what is still lacking of the reads behind
    /// an escape byte.
    fn gather(&mut self)
        ensures
            final(self)@ == old(self)@.gather(),
    {
        while self.seen.len() < LOOKAHEAD && self.pending.len() > 0
            invariant
                self@.gather() == old(self)@.gather(),
            decreases self.pending@.len(),
        {
            let byte = self.pending.pop().unwrap();
            self.seen.push(Some(byte));
        }
    }

    /// Decodes the reads behind an escape byte and puts back what does not
    /// belong to the key.
    fn resolve(&mut self) -> (step: Step)
        requires
            old(self)@.seen.len() >= LOOKAHEAD,
        ensures
            (final(self)@, step) == old(self)@.resolve(),
    {
        let (key, used) = decode_escape(self.seen[0], self.seen[1], self.seen[2]);
        let mut i: usize = self.seen.len();
        while i > used
            invariant
                used <= i <= self.seen@.len(),
                self.seen@ == old(self)@.seen,
                self.escaping == old(self).escaping,
                self.pending@ == put_back(old(self)@.pending, self.seen@.skip(i as int)),
            decreases i,
        {
            i -= 1;
            assert(self.seen@.skip(i as int).drop_first() == self.seen@.skip(i + 1));
            if let Some(byte) = self.seen[i] {
                self.pending.push(byte);
            }
        }
        self.seen.clear();
        self.escaping = false;
        Step::Done(key)
    }

    /// Goes on behind an escape byte.
    fn follow(&mut self) -> (step: Step)
        ensures
            (final(self)@, step) == old(self)@.follow(),
    {
        self.gather();
        if self.seen.len() >= LOOKAHEAD {
            self.resolve()
        } else {
            Step::Peek
        }
    }

    /// Goes as far as it can without the terminal and says what it needs
    /// next: a read that waits for a byte, a read with the poll timeout, or
    /// nothing, because a key is decoded. The outcome of a read is handed in
    /// with [`KeyDecoder::supply`], and then `poll` is called again.
    pub fn poll(&mut self) -> (step: Step)
        ensures
            (final(self)@, step) == old(self)@.poll(),
    {
        if self.escaping {
            return self.follow();
        }
        match self.pending.pop() {
            None => Step::Wait,
            Some(byte) => {
                if byte == ESCAPE {
                    self.escaping = true;
                    self.follow()
                } else {
                    Step::Done(decode_byte(byte))
                }
            },
        }
    }

    /// Hands in the outcome of a read: the byte, or `None` for a read that
    /// timed out.
    pub fn supply(&mut self, byte: Option<u8>)
        ensures
            final(self)@ == old(self)@.supply(byte),
    {
        if self.escaping {
            self.seen.push(byte);
        } else if let Some(b) = byte {
            self.pending.insert(0, b);
            assert(self.pending@ =~= seq![b] + old(self).pending@);
        }
    }
}

/// The attributes of a terminal that raw mode is about, as plain values:
/// the four flag words, and the two settings that say when a read returns.
#[derive(Clone, Copy, Debug, PartialEq, Eq, Structural)]
pub struct TermAttrs {
    /// The input flags.
    pub input: u64,
    /// The output flags.
    pub output: u64,
    /// The control flags.
    pub control: u64,
    /// The local flags.
    pub local: u64,
    /// How many bytes a read waits for at least.
    pub min_bytes: u8,
    /// How long a read waits, in tenths of a second.
    pub timeout: u8,
}

/// The bits of the flag words that raw mode changes; their values are the
/// platform's.
#[derive(Clone, Copy, Debug, PartialEq, Eq, Structural)]
pub struct RawModeBits {
    /// Local flag: echo what is typed.
    pub echo: u64,
    /// Local flag: hand input over line by line.
    pub canonical: u64,
    /// Local flag: turn control characters into signals.
    pub signals: u64,
    /// Local flag: extended input processing.
    pub extended: u64,
    /// Input flag: flow control.
    pub flow_control: u64,
    /// Input flag: turn carriage return into line feed.
    pub cr_to_nl: u64,
    /// Input flag: a break interrupts.
    pub break_interrupt: u64,
    /// Input flag: parity checking.
    pub parity_check: u64,
    /// Input flag: strip the eighth bit.
    pub strip_high_bit: u64,
    /// Output flag: output post-processing.
    pub post_process: u64,
    /// Control flag: characters of eight bits.
    pub eight_bits: u64,
}

/// How long a read in raw mode waits for a byte, in tenths of a second.
pub const POLL_TENTHS: u8 = 1;

impl RawModeBits {
    /// The local flags that raw mode switches off.
    pub open spec fn local_off(self) -> u64 {
        self.echo | self.canonical | self.signals | self.extended
    }

    /// The input flags that raw mode switches off.
    pub open spec fn input_off(self) -> u64 {
        self.flow_control | self.cr_to_nl | self.break_interrupt | self.parity_check
            | self.strip_high_bit
    }
}

/// The attributes of raw mode, made from `attrs`: echo, canonical input,
/// signals and extended input processing are off; so are flow control, the
/// translation of carriage return, break interrupts, parity checking and
/// the stripping of the eighth bit; so is output post-processing.
/// Characters have eight bits, and a read returns after a tenth of a second
/// at the latest, with or without a byte. Every other bit stays as it is.
pub fn raw_mode(attrs: TermAttrs, bits: RawModeBits) -> (raw: TermAttrs)
    ensures
        raw.local == attrs.local & !bits.local_off(),
        raw.input == attrs.input & !bits.input_off(),
        raw.output == attrs.output & !bits.post_process,
        raw.control == attrs.control | bits.eight_bits,
        raw.min_bytes == 0,
        raw.timeout == POLL_TENTHS,
        raw.local & bits.echo == 0,
        raw.local & bits.canonical == 0,
        raw.local & bits.signals == 0,
        raw.local & bits.extended == 0,
        raw.input & bits.flow_control == 0,
        raw.input & bits.cr_to_nl == 0,
        raw.input & bits.break_interrupt == 0,
        raw.input & bits.parity_check == 0,
        raw.input & bits.strip_high_bit == 0,
        raw.output & bits.post_process == 0,
        raw.control & bits.eight_bits == bits.eight_bits,
{
    let local_off = bits.echo | bits.canonical | bits.signals | bits.extended;
    let input_off = bits.flow_control | bits.cr_to_nl | bits.break_interrupt | bits.parity_check
        | bits.strip_high_bit;
    let raw = TermAttrs {
        input: attrs.input & !input_off,
        output: attrs.output & !bits.post_process,
        control: attrs.control | bits.eight_bits,
        local: attrs.local & !local_off,
        min_bytes: 0,
        timeout: POLL_TENTHS,
    };
    proof {
        let l = attrs.local;
        let (e, c, g, x) = (bits.echo, bits.canonical, bits.signals, bits.extended);
        assert((l & !(e | c | g | x)) & e == 0 && (l & !(e | c | g | x)) & c == 0 && (l & !(e | c
            | g | x)) & g == 0 && (l & !(e | c | g | x)) & x == 0) by (bit_vector);
        let i = attrs.input;
        let (f, r, b, p, h) = (
            bits.flow_control,
            bits.cr_to_nl,
            bits.break_interrupt,
            bits.parity_check,
            bits.strip_high_bit,
        );
        assert((i & !(f | r | b | p | h)) & f == 0 && (i & !(f | r | b | p | h)) & r == 0 && (i
            & !(f | r | b | p | h)) & b == 0 && (i & !(f | r | b | p | h)) & p == 0 && (i & !(f | r
            | b | p | h)) & h == 0) by (bit_vector);
        let (o, q) = (attrs.output, bits.post_process);
        assert((o & !q) & q == 0) by (bit_vector);
        let (k, w) = (attrs.control, bits.eight_bits);
        assert((k | w) & w == w) by (bit_vector);
    }
    raw
}

} // verus!
