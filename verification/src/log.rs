//! Log messages as the serial line carries them.
use vstd::prelude::*;

use crate::lines::Line;
use crate::pool;
use crate::pool::{PoolAllocator, PoolAllocatorGuard};

verus! {

/// The bytes that a message holds at most.
pub const MESSAGE_CAPACITY: usize = 256;

pub const LINE_FEED: u8 = 10;

pub const CARRIAGE_RETURN: u8 = 13;

pub const QUESTION_MARK: u8 = 63;

/// The bytes of one character on the serial line: a line feed gets a carriage return in front, and
/// what is not ASCII becomes a question mark.
pub open spec fn encode_char(c: char) -> Seq<u8> {
    if c == '\n' {
        seq![CARRIAGE_RETURN, LINE_FEED]
    } else if (c as int) < 128 {
        seq![c as u8]
    } else {
        seq![QUESTION_MARK]
    }
}

/// The bytes of a text on the serial line.
pub open spec fn encode(text: Seq<char>) -> Seq<u8>
    decreases text.len(),
{
    if text.len() == 0 {
        seq![]
    } else {
        encode(text.drop_last()) + encode_char(text.last())
    }
}

/// What a message keeps of some bytes: those that fit.
pub open spec fn clipped(bytes: Seq<u8>) -> Seq<u8> {
    if bytes.len() <= MESSAGE_CAPACITY {
        bytes
    } else {
        bytes.take(MESSAGE_CAPACITY as int)
    }
}

/// `core::fmt::Error`, the error type of the standard text writers. Nothing is claimed of it.
#[verifier::external_type_specification]
#[verifier::external_body]
pub struct ExFmtError(core::fmt::Error);

#[derive(Clone, Copy)]
pub struct PendingMessage {
    message: [u8; MESSAGE_CAPACITY],
    len: usize,
}

impl View for PendingMessage {
    type V = Seq<u8>;

    /// The bytes of the message: the part of its buffer that is used.
    closed spec fn view(&self) -> Seq<u8> {
        self.buffer().take(self.used() as int)
    }
}

/// Whether `after` is `before` with bytes appended and no other place of its buffer touched.
#[verifier::opaque]
pub open spec fn is_grown(before: PendingMessage, after: PendingMessage) -> bool {
    &&& before.used() <= after.used() <= MESSAGE_CAPACITY
    &&& after.buffer().len() == MESSAGE_CAPACITY
    &&& forall|i: int|
        0 <= i < MESSAGE_CAPACITY && !(before.used() <= i < after.used())
            ==> #[trigger] after.buffer()[i] == before.buffer()[i]
}

impl PendingMessage {
    #[verifier::type_invariant]
    spec fn well_formed(self) -> bool {
        self.len <= MESSAGE_CAPACITY
    }

    /// The whole buffer, with the message in front.
    pub closed spec fn buffer(self) -> Seq<u8> {
        self.message@
    }

    /// How many bytes of the buffer are used.
    pub closed spec fn used(self) -> nat {
        self.len as nat
    }

    pub fn new() -> (message: PendingMessage)
        ensures
            message@ == Seq::<u8>::empty(),
            message.used() == 0,
            message.buffer() == Seq::new(MESSAGE_CAPACITY as nat, |i: int| 0u8),
    {
        PendingMessage { message: [0;MESSAGE_CAPACITY], len: 0 }
    }

    /// Empties the message. Its buffer stays as it is.
    pub fn reset(&mut self)
        ensures
            final(self)@ == Seq::<u8>::empty(),
            final(self).used() == 0,
            final(self).buffer() == old(self).buffer(),
    {
        self.len = 0;
    }

    /// Appends a byte, or drops it when the message is full.
    pub fn push_char(&mut self, c: u8)
        ensures
            final(self)@ == clipped(old(self)@.push(c)),
            final(self).used() == final(self)@.len(),
            is_grown(*old(self), *final(self)),
            final(self).buffer() == if old(self).used() < MESSAGE_CAPACITY {
                old(self).buffer().update(old(self).used() as int, c)
            } else {
                old(self).buffer()
            },
            old(self).used() == MESSAGE_CAPACITY ==> *final(self) == *old(self),
    {
        proof {
            reveal(is_grown);
            use_type_invariant(&*self);
        }
        if self.len < MESSAGE_CAPACITY {
            self.message[self.len] = c;
            self.len = self.len + 1;
        }
        assert(self@ =~= clipped(old(self)@.push(c)));
    }

    /// Appends a character, as far as it fits.
    fn write_char(&mut self, c: char)
        ensures
            final(self)@ == clipped(old(self)@ + encode_char(c)),
            final(self).used() == final(self)@.len(),
            is_grown(*old(self), *final(self)),
    {
        broadcast use law_growth_adds_up;

        let ghost before = self@;
        if c == '\n' {
            self.push_char(CARRIAGE_RETURN);
            self.push_char(LINE_FEED);
            assert(self@ =~= clipped(before + seq![CARRIAGE_RETURN, LINE_FEED]));
        } else if (c as u32) < 128 {
            self.push_char(c as u8);
            assert(self@ =~= clipped(before + seq![c as u8]));
        } else {
            self.push_char(QUESTION_MARK);
            assert(self@ =~= clipped(before + seq![QUESTION_MARK]));
        }
    }

    /// Appends a text, as far as it fits. What does not fit is dropped, which is no error.
    pub fn write_str(&mut self, s: &str) -> (written: core::fmt::Result)
        ensures
            written is Ok,
            final(self)@ == clipped(old(self)@ + encode(s@)),
            final(self).used() == final(self)@.len(),
            is_grown(*old(self), *final(self)),
            forall|i: int|
                0 <= i < MESSAGE_CAPACITY && !(old(self).used() <= i < final(self).used())
                    ==> #[trigger] final(self).buffer()[i] == old(self).buffer()[i],
            old(self).used() == MESSAGE_CAPACITY ==> *final(self) == *old(self),
    {
        self.append(s);
        proof {
            reveal(is_grown);
            if old(self).used() == MESSAGE_CAPACITY {
                law_full_message_stays(*old(self), *self);
            }
        }
        Ok(())
    }

    /// Appends a text, as far as it fits.
    pub(crate) fn append(&mut self, s: &str)
        ensures
            final(self)@ == clipped(old(self)@ + encode(s@)),
            final(self).used() == final(self)@.len(),
            is_grown(*old(self), *final(self)),
    {
        proof {
            reveal(is_grown);
            use_type_invariant(&*self);
            assert(s@.take(0) =~= Seq::empty());
            assert(self@ =~= clipped(old(self)@ + encode(s@.take(0))));
        }
        for c in chars: s.chars()
            invariant
                chars.seq() == s@,
                self@ == clipped(old(self)@ + encode(s@.take(chars.index()))),
                self.used() == self@.len(),
                is_grown(*old(self), *self),
        {
            broadcast use law_growth_adds_up;

            let ghost done = s@.take(chars.index());
            let ghost so_far = s@.take(chars.index() + 1);
            assert(so_far.drop_last() =~= done);
            assert(so_far.last() == c);
            let ghost before = old(self)@ + encode(done);
            self.write_char(c);
            assert(self@ =~= clipped(before + encode_char(c)));
            assert(before + encode_char(c) =~= old(self)@ + encode(so_far));
        }
        assert(s@.take(s@.len() as int) =~= s@);
    }

    pub fn len(&self) -> (len: usize)
        ensures
            len == self@.len(),
            len == self.used(),
    {
        proof {
            use_type_invariant(self);
        }
        self.len
    }

    /// Byte `i` of the message.
    pub fn byte(&self, i: usize) -> (byte: u8)
        requires
            i < self@.len(),
        ensures
            byte == self@[i as int],
    {
        proof {
            use_type_invariant(self);
        }
        self.message[i]
    }
}

/// A message is the front of its buffer, and the buffer keeps its length.
pub proof fn law_message_is_front_of_buffer(message: PendingMessage)
    ensures
        message@ == message.buffer().take(message.used() as int),
        message.buffer().len() == MESSAGE_CAPACITY,
        message.used() <= MESSAGE_CAPACITY ==> message@.len() == message.used(),
{
}

/// Appending leaves the rest of the buffer alone: the bytes before the appended ones, and those
/// behind them.
pub proof fn law_growth_keeps_the_rest(before: PendingMessage, after: PendingMessage, i: int)
    requires
        is_grown(before, after),
        0 <= i < MESSAGE_CAPACITY,
        i < before.used() || after.used() <= i,
    ensures
        after.buffer()[i] == before.buffer()[i],
        before.used() <= after.used() <= MESSAGE_CAPACITY,
{
    reveal(is_grown);
}

/// What grows and grows again has grown.
pub broadcast proof fn law_growth_adds_up(
    before: PendingMessage,
    between: PendingMessage,
    after: PendingMessage,
)
    requires
        #[trigger] is_grown(before, between),
        #[trigger] is_grown(between, after),
    ensures
        is_grown(before, after),
{
    reveal(is_grown);
}

/// A full message stays whole: nothing can be appended to it, and no place of it changes.
pub proof fn law_full_message_stays(before: PendingMessage, after: PendingMessage)
    requires
        is_grown(before, after),
        before.used() == MESSAGE_CAPACITY,
    ensures
        after == before,
{
    reveal(is_grown);
    assert(after.buffer() =~= before.buffer());
    assert(after.message =~= before.message);
}

/// The bytes of a logged text: the text and an end of line, as far as they fit.
pub open spec fn logged(text: Seq<char>) -> Seq<u8> {
    clipped(encode(text) + seq![CARRIAGE_RETURN, CARRIAGE_RETURN, LINE_FEED])
}

/// Ends the line of a message.
fn end_line(message: &mut PendingMessage)
    ensures
        final(message)@ == clipped(
            old(message)@ + seq![CARRIAGE_RETURN, CARRIAGE_RETURN, LINE_FEED],
        ),
        is_grown(*old(message), *final(message)),
{
    message.append("\r\n");
    proof {
        reveal_strlit("\r\n");
        let end = "\r\n"@;
        assert(end.drop_last().drop_last() =~= Seq::empty());
        reveal_with_fuel(encode, 3);
        assert(encode(end) =~= seq![CARRIAGE_RETURN, CARRIAGE_RETURN, LINE_FEED]);
    }
}

/// Whether `message` is the next free message of a pool, taken out of `before` and filled with a
/// text and an end of line, and `after` the pool then. When every message is in use, there is none,
/// and the pool stays as it is.
pub open spec fn is_logged<const N: usize>(
    before: PoolAllocator<PendingMessage, N>,
    after: PoolAllocator<PendingMessage, N>,
    text: Seq<char>,
    message: Option<PoolAllocatorGuard<N>>,
) -> bool {
    &&& after.free() == pool::after_allocation(before.free())
    &&& after.id() == before.id()
    &&& match message {
        Some(guard) => {
            &&& 0 <= guard.slot() < N
            &&& guard.pool_id() == after.id()
            &&& pool::first_free(before.free()) == Some(guard.slot())
            &&& after.items()[guard.slot()]@ == logged(text)
            &&& after.items()[guard.slot()].used() <= MESSAGE_CAPACITY
            &&& forall|i: int|
                after.items()[guard.slot()].used() <= i < MESSAGE_CAPACITY
                    ==> #[trigger] after.items()[guard.slot()].buffer()[i]
                    == before.items()[guard.slot()].buffer()[i]
            &&& forall|i: int|
                0 <= i < N && i != guard.slot() ==> #[trigger] after.items()[i]
                    == before.items()[i]
        },
        None => pool::first_free(before.free()) is None && after.items() == before.items(),
    }
}

/// Takes a message out of the pool and fills it with a text and an end of line. When every message
/// is in use, the text is dropped.
pub fn log_args<const N: usize>(
    pool: &mut PoolAllocator<PendingMessage, N>,
    text: &str,
) -> (message: Option<PoolAllocatorGuard<N>>)
    ensures
        is_logged(*old(pool), *final(pool), text@, message),
        message is Some <==> exists|i: int| 0 <= i < N && #[trigger] old(pool).free()[i],
        message matches Some(guard) ==> final(pool).items()[guard.slot()]@ == logged(text@),
        message matches Some(guard) ==> old(pool).free()[guard.slot()]
            && !final(pool).free()[guard.slot()],
        message matches Some(guard) ==> {
            &&& forall|j: int| 0 <= j < guard.slot() ==> !#[trigger] old(pool).free()[j]
            &&& forall|j: int|
                0 <= j < N && j != guard.slot() ==> #[trigger] final(pool).free()[j] == old(
                    pool,
                ).free()[j]
            &&& forall|j: int|
                0 <= j < N && j != guard.slot() ==> #[trigger] final(pool).items()[j] == old(
                    pool,
                ).items()[j]
        },
        message is None ==> final(pool).items() == old(pool).items() && final(pool).free() == old(
            pool,
        ).free(),
{
    broadcast use law_growth_adds_up;

    proof {
        pool::law_allocation_takes_lowest_free_slot(pool.free());
    }
    match pool.allocate() {
        Some(guard) => {
            let message = guard.deref_mut(pool);
            message.reset();
            message.append(text);
            end_line(message);
            assert(message@ =~= logged(text@));
            proof {
                reveal(is_grown);
            }
            Some(guard)
        },
        None => None,
    }
}

/// Logs a line, as `log_args` logs a text.
pub fn log_line<const N: usize>(
    pool: &mut PoolAllocator<PendingMessage, N>,
    line: &Line,
) -> (message: Option<PoolAllocatorGuard<N>>)
    ensures
        is_logged(*old(pool), *final(pool), line.text(), message),
        message is Some <==> exists|i: int| 0 <= i < N && #[trigger] old(pool).free()[i],
        message matches Some(guard) ==> final(pool).items()[guard.slot()]@ == logged(line.text()),
        message matches Some(guard) ==> old(pool).free()[guard.slot()]
            && !final(pool).free()[guard.slot()],
        message matches Some(guard) ==> {
            &&& forall|j: int| 0 <= j < guard.slot() ==> !#[trigger] old(pool).free()[j]
            &&& forall|j: int|
                0 <= j < N && j != guard.slot() ==> #[trigger] final(pool).free()[j] == old(
                    pool,
                ).free()[j]
            &&& forall|j: int|
                0 <= j < N && j != guard.slot() ==> #[trigger] final(pool).items()[j] == old(
                    pool,
                ).items()[j]
        },
        message is None ==> final(pool).items() == old(pool).items() && final(pool).free() == old(
            pool,
        ).free(),
{
    broadcast use law_growth_adds_up;

    proof {
        pool::law_allocation_takes_lowest_free_slot(pool.free());
    }
    match pool.allocate() {
        Some(guard) => {
            let message = guard.deref_mut(pool);
            message.reset();
            line.write(message);
            end_line(message);
            assert(message@ =~= logged(line.text()));
            proof {
                reveal(is_grown);
            }
            Some(guard)
        },
        None => None,
    }
}

proof fn lemma_encode_splits(first: Seq<char>, second: Seq<char>)
    ensures
        encode(first + second) == encode(first) + encode(second),
    decreases second.len(),
{
    if second.len() == 0 {
        assert(first + second =~= first);
        assert(encode(first) + encode(second) =~= encode(first));
    } else {
        lemma_encode_splits(first, second.drop_last());
        assert((first + second).drop_last() =~= first + second.drop_last());
        assert(encode(first + second) =~= encode(first) + encode(second));
    }
}

/// It does not matter in how many pieces a text is written: writing two pieces one after the other
/// is writing them joined.
pub broadcast proof fn law_pieces_join(before: Seq<u8>, first: Seq<char>, second: Seq<char>)
    ensures
        #[trigger] clipped(clipped(before + encode(first)) + encode(second)) == clipped(
            before + encode(first + second),
        ),
{
    lemma_encode_splits(first, second);
    assert(clipped(clipped(before + encode(first)) + encode(second)) =~= clipped(
        before + (encode(first) + encode(second)),
    ));
}

proof fn lemma_ascii_byte(c: char)
    requires
        (c as int) < 128,
    ensures
        c as u8 == c as int,
        c as u8 == 10 ==> c == '\n',
{
}

/// What goes to the serial line is ASCII, and every line feed in it has a carriage return in front.
pub proof fn law_encoding_is_clean(text: Seq<char>, i: int)
    requires
        0 <= i < encode(text).len(),
    ensures
        encode(text)[i] < 128,
        encode(text)[i] == LINE_FEED ==> i > 0 && encode(text)[i - 1] == CARRIAGE_RETURN,
    decreases text.len(),
{
    let shorter = encode(text.drop_last());
    if i < shorter.len() {
        law_encoding_is_clean(text.drop_last(), i);
        if i > 0 {
            assert(encode(text)[i - 1] == shorter[i - 1]);
        }
    } else {
        let last = encode_char(text.last());
        let j = i - shorter.len();
        assert(encode(text)[i] == last[j]);
        assert(j == 1 ==> encode(text)[i - 1] == last[0]);
        if (text.last() as int) < 128 {
            lemma_ascii_byte(text.last());
        }
    }
}

/// A text is written character by character, each at its place between what comes before and what
/// comes after: a line feed as carriage return and line feed, any other ASCII character as its own
/// code, and every other character as one question mark.
pub proof fn law_characters_in_order(before: Seq<char>, c: char, after: Seq<char>)
    ensures
        encode(Seq::<char>::empty()) == Seq::<u8>::empty(),
        c == '\n' ==> encode(before + seq![c] + after) == encode(before) + seq![13u8, 10u8]
            + encode(after),
        c != '\n' && (c as int) < 128 ==> encode(before + seq![c] + after) == encode(before)
            + seq![c as u8] + encode(after),
        (c as int) >= 128 ==> encode(before + seq![c] + after) == encode(before) + seq![63u8]
            + encode(after),
{
    lemma_encode_splits(before + seq![c], after);
    assert((before + seq![c]).drop_last() =~= before);
    assert((before + seq![c]).last() == c);
}

/// A text of plain characters goes out as it is, one byte for each character.
pub proof fn law_plain_text_goes_out_as_it_is(text: Seq<char>)
    requires
        forall|i: int|
            0 <= i < text.len() ==> (#[trigger] text[i] as int) < 128 && text[i] != '\n',
    ensures
        encode(text).len() == text.len(),
        forall|i: int| 0 <= i < text.len() ==> #[trigger] encode(text)[i] == text[i] as int,
    decreases text.len(),
{
    if text.len() > 0 {
        let before = text.drop_last();
        assert forall|i: int| 0 <= i < before.len() implies (#[trigger] before[i] as int) < 128
            && before[i] != '\n' by {
            assert(before[i] == text[i]);
        }
        law_plain_text_goes_out_as_it_is(before);
        assert((text[text.len() - 1] as int) < 128 && text[text.len() - 1] != '\n');
        lemma_ascii_byte(text.last());
        assert forall|i: int| 0 <= i < text.len() implies #[trigger] encode(text)[i]
            == text[i] as int by {
            if i < before.len() {
                assert(encode(text)[i] == encode(before)[i]);
            }
        }
    }
}

/// A message keeps the first 256 bytes of what is written to it, and all of them if there are no
/// more.
pub proof fn law_message_keeps_the_front(bytes: Seq<u8>, i: int)
    ensures
        clipped(bytes).len() == if bytes.len() <= 256 {
            bytes.len()
        } else {
            256
        },
        0 <= i < bytes.len() && i < 256 ==> clipped(bytes)[i] == bytes[i],
        bytes.len() <= 256 ==> clipped(bytes) == bytes,
{
}

/// A logged text is followed by two carriage returns and a line feed, and short texts keep them.
pub proof fn law_logged_text_ends_its_line(text: Seq<char>)
    ensures
        encode(text).len() <= 253 ==> logged(text) == encode(text) + seq![13u8, 13u8, 10u8],
        encode(text).len() >= 256 ==> logged(text) == encode(text).take(256),
        logged(text).len() <= 256,
        logged(text) == clipped(encode(text) + seq![13u8, 13u8, 10u8]),
{
    if encode(text).len() >= 256 {
        assert((encode(text) + seq![13u8, 13u8, 10u8]).take(256) =~= encode(text).take(256));
    }
}

} // verus!
