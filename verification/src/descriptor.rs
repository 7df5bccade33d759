//! HID report descriptors: short items and their bytes.
use vstd::prelude::*;

verus! {

/// The flags of an input item.
#[derive(Clone, Copy, Debug, PartialEq, Eq, Structural)]
pub struct Input {
    pub constant: bool,
    pub variable: bool,
    pub relative: bool,
    pub wrap: bool,
    pub non_linear: bool,
    pub no_preferred_state: bool,
    pub null_state: bool,
    pub buffered_bytes: bool,
}

/// Adds the flag of bit `at` to the flags of the bits below it.
fn with_flag(flags: u32, at: u32, set: bool) -> (added: u32)
    requires
        at < 32,
        flags < 1u32 << at,
    ensures
        added == if set {
            flags + (1u32 << at)
        } else {
            flags as int
        },
{
    if set {
        assert((flags | (1u32 << at)) == flags + (1u32 << at)) by (bit_vector)
            requires
                at < 32,
                flags < 1u32 << at,
        ;
        flags | (1u32 << at)
    } else {
        flags
    }
}

impl Input {
    /// The flags as a number: each flag at its own bit. Bit 7 is not a flag of an input item.
    pub open spec fn flags(self) -> int {
        (if self.constant { 1int } else { 0 }) + (if self.variable { 2int } else { 0 }) + (
        if self.relative { 4int } else { 0 }) + (if self.wrap { 8int } else { 0 }) + (
        if self.non_linear { 16int } else { 0 }) + (if self.no_preferred_state { 32int } else { 0 })
            + (if self.null_state { 64int } else { 0 }) + (if self.buffered_bytes {
            256int
        } else {
            0
        })
    }

    pub fn make_payload(&self) -> (payload: ShortDataPayload)
        ensures
            payload matches ShortDataPayload::U32(value) && value == self.flags(),
            payload matches ShortDataPayload::U32(value) && {
                &&& value < 512
                &&& value as int % 2 == 1 <==> self.constant
                &&& value as int / 2 % 2 == 1 <==> self.variable
                &&& value as int / 4 % 2 == 1 <==> self.relative
                &&& value as int / 8 % 2 == 1 <==> self.wrap
                &&& value as int / 16 % 2 == 1 <==> self.non_linear
                &&& value as int / 32 % 2 == 1 <==> self.no_preferred_state
                &&& value as int / 64 % 2 == 1 <==> self.null_state
                &&& value as int / 128 % 2 == 0
                &&& value as int / 256 % 2 == 1 <==> self.buffered_bytes
            },
    {
        let mut res: u32 = 0;
        assert(1u32 << 0 == 1 && 1u32 << 1 == 2 && 1u32 << 2 == 4 && 1u32 << 3 == 8 && 1u32 << 4
            == 16 && 1u32 << 5 == 32 && 1u32 << 6 == 64 && 1u32 << 8 == 256) by (bit_vector);
        res = with_flag(res, 0, self.constant);
        res = with_flag(res, 1, self.variable);
        res = with_flag(res, 2, self.relative);
        res = with_flag(res, 3, self.wrap);
        res = with_flag(res, 4, self.non_linear);
        res = with_flag(res, 5, self.no_preferred_state);
        res = with_flag(res, 6, self.null_state);
        res = with_flag(res, 8, self.buffered_bytes);
        ShortDataPayload::U32(res)
    }
}

#[derive(Clone, Copy, Debug, PartialEq, Eq, Structural)]
pub enum Collection {
    Physical,
    Application,
    Logical,
    Report,
    NamedArray,
    UsageSwitch,
    UsageModifier,
}

impl Collection {
    /// The number of this kind of collection.
    pub open spec fn number(self) -> u8 {
        match self {
            Collection::Physical => 0,
            Collection::Application => 1,
            Collection::Logical => 2,
            Collection::Report => 3,
            Collection::NamedArray => 4,
            Collection::UsageSwitch => 5,
            Collection::UsageModifier => 6,
        }
    }

    pub fn tag(&self) -> (tag: u8)
        ensures
            tag == self.number(),
            tag == match *self {
                Collection::Physical => 0u8,
                Collection::Application => 1,
                Collection::Logical => 2,
                Collection::Report => 3,
                Collection::NamedArray => 4,
                Collection::UsageSwitch => 5,
                Collection::UsageModifier => 6,
            },
    {
        match self {
            Collection::Physical => 0,
            Collection::Application => 1,
            Collection::Logical => 2,
            Collection::Report => 3,
            Collection::NamedArray => 4,
            Collection::UsageSwitch => 5,
            Collection::UsageModifier => 6,
        }
    }
}

/// The data bytes of a short item.
#[derive(Clone, Copy, Debug, PartialEq, Eq, Structural)]
pub enum ShortDataPayload {
    Empty,
    U8(u8),
    U16(u16),
    U32(u32),
}

impl ShortDataPayload {
    /// The data bytes, lowest first.
    pub open spec fn bytes(self) -> Seq<u8> {
        match self {
            ShortDataPayload::Empty => seq![],
            ShortDataPayload::U8(b) => seq![b],
            ShortDataPayload::U16(b) => seq![(b % 256) as u8, (b / 256) as u8],
            ShortDataPayload::U32(b) => seq![
                (b % 256) as u8,
                (b / 256 % 256) as u8,
                (b / 65536 % 256) as u8,
                (b / 16777216) as u8,
            ],
        }
    }

    /// The size code of the item header. Code 3 stands for four bytes.
    pub open spec fn size_code(self) -> u8 {
        match self {
            ShortDataPayload::Empty => 0,
            ShortDataPayload::U8(_) => 1,
            ShortDataPayload::U16(_) => 2,
            ShortDataPayload::U32(_) => 3,
        }
    }

    pub fn len(&self) -> (len: u8)
        ensures
            len == self.size_code(),
            len == match *self {
                ShortDataPayload::Empty => 0u8,
                ShortDataPayload::U8(_) => 1,
                ShortDataPayload::U16(_) => 2,
                ShortDataPayload::U32(_) => 3,
            },
    {
        match self {
            ShortDataPayload::Empty => 0,
            ShortDataPayload::U8(_) => 1,
            ShortDataPayload::U16(_) => 2,
            ShortDataPayload::U32(_) => 3,
        }
    }
}

/// A short item of a report descriptor.
#[derive(Clone, Copy, Debug, PartialEq, Eq, Structural)]
pub enum Item {
    // Main items
    Input(Input),
    Output,
    Feature,
    Collection(Collection),
    EndCollection,
    // Global items
    UsagePage,
    LogicalMinimum(u16),
    LogicalMaximum(u16),
    PhysicalMinimum,
    PhysicalMaximum,
    UnitExponent,
    Unit,
    ReportSize(u8),
    ReportId,
    ReportCount(u8),
    Push,
    Pop,
    // Local items
    Usage,
    UsageMinimum,
    UsageMaximum,
    DesignatorIndex,
    DesignatorMinimum,
    DesignatorMaximum,
    StringIndex,
    StringMinimum,
    StringMaximum,
    Delimiter,
}

impl Item {
    pub open spec fn is_main(self) -> bool {
        self is Input || self is Output || self is Feature || self is Collection
            || self is EndCollection
    }

    pub open spec fn is_local(self) -> bool {
        self is Usage || self is UsageMinimum || self is UsageMaximum || self is DesignatorIndex
            || self is DesignatorMinimum || self is DesignatorMaximum || self is StringIndex
            || self is StringMinimum || self is StringMaximum || self is Delimiter
    }

    /// The type of the item: main, global or local.
    pub open spec fn item_type(self) -> u8 {
        if self.is_main() {
            0
        } else if self.is_local() {
            2
        } else {
            1
        }
    }

    /// The tag of the item among those of its type.
    pub open spec fn item_tag(self) -> u8 {
        match self {
            Item::Input(_) => 8,
            Item::Output => 9,
            Item::Collection(_) => 10,
            Item::Feature => 11,
            Item::EndCollection => 12,
            Item::UsagePage => 0,
            Item::LogicalMinimum(_) => 1,
            Item::LogicalMaximum(_) => 2,
            Item::PhysicalMinimum => 3,
            Item::PhysicalMaximum => 4,
            Item::UnitExponent => 5,
            Item::Unit => 6,
            Item::ReportSize(_) => 7,
            Item::ReportId => 8,
            Item::ReportCount(_) => 9,
            Item::Push => 10,
            Item::Pop => 11,
            Item::Usage => 0,
            Item::UsageMinimum => 1,
            Item::UsageMaximum => 2,
            Item::DesignatorIndex => 3,
            Item::DesignatorMinimum => 4,
            Item::DesignatorMaximum => 5,
            Item::StringIndex => 7,
            Item::StringMinimum => 8,
            Item::StringMaximum => 9,
            Item::Delimiter => 10,
        }
    }

    /// Whether the data of this kind of item can be written.
    pub open spec fn supported(self) -> bool {
        self is Input || self is Collection || self is EndCollection || self is LogicalMinimum
            || self is LogicalMaximum || self is ReportSize || self is ReportCount
    }

    /// The data of the item.
    pub open spec fn payload(self) -> ShortDataPayload {
        match self {
            Item::Input(input) => ShortDataPayload::U32(input.flags() as u32),
            Item::Collection(collection) => ShortDataPayload::U8(collection.number()),
            Item::LogicalMinimum(v) => ShortDataPayload::U16(v),
            Item::LogicalMaximum(v) => ShortDataPayload::U16(v),
            Item::ReportSize(v) => ShortDataPayload::U8(v),
            Item::ReportCount(v) => ShortDataPayload::U8(v),
            _ => ShortDataPayload::Empty,
        }
    }

    /// The first byte of the item: tag, type and size code.
    pub open spec fn header(self) -> u8 {
        (self.item_tag() * 16 + self.item_type() * 4 + self.payload().size_code()) as u8
    }

    /// The bytes of the item.
    pub open spec fn bytes(self) -> Seq<u8> {
        seq![self.header()] + self.payload().bytes()
    }

    pub fn btype(&self) -> (btype: u8)
        ensures
            btype == self.item_type(),
    {
        match self {
            Item::Input(_)
            | Item::Output
            | Item::Feature
            | Item::Collection(_)
            | Item::EndCollection => 0,
            Item::UsagePage
            | Item::LogicalMaximum(_)
            | Item::LogicalMinimum(_)
            | Item::PhysicalMinimum
            | Item::PhysicalMaximum
            | Item::UnitExponent
            | Item::Unit
            | Item::ReportSize(_)
            | Item::ReportId
            | Item::ReportCount(_)
            | Item::Push
            | Item::Pop => 1,
            Item::Usage
            | Item::UsageMinimum
            | Item::UsageMaximum
            | Item::DesignatorIndex
            | Item::DesignatorMinimum
            | Item::DesignatorMaximum
            | Item::StringIndex
            | Item::StringMinimum
            | Item::StringMaximum
            | Item::Delimiter => 2,
        }
    }

    pub fn btag(&self) -> (btag: u8)
        ensures
            btag == self.item_tag(),
    {
        match self {
            Item::Input(_) => 8,
            Item::Output => 9,
            Item::Feature => 0b1011,
            Item::Collection(_) => 0b1010,
            Item::EndCollection => 0b1100,
            Item::UsagePage => 0,
            Item::LogicalMinimum(_) => 1,
            Item::LogicalMaximum(_) => 2,
            Item::PhysicalMinimum => 3,
            Item::PhysicalMaximum => 4,
            Item::UnitExponent => 5,
            Item::Unit => 6,
            Item::ReportSize(_) => 7,
            Item::ReportId => 8,
            Item::ReportCount(_) => 9,
            Item::Push => 0b1010,
            Item::Pop => 0b1011,
            Item::Usage => 0,
            Item::UsageMinimum => 1,
            Item::UsageMaximum => 2,
            Item::DesignatorIndex => 3,
            Item::DesignatorMinimum => 4,
            Item::DesignatorMaximum => 5,
            Item::StringIndex => 7,
            Item::StringMinimum => 8,
            Item::StringMaximum => 9,
            Item::Delimiter => 10,
        }
    }

    pub fn serialize_data(&self) -> (data: ShortDataPayload)
        requires
            self.supported(),
        ensures
            data == self.payload(),
            match *self {
                Item::Input(_) => data is U32,
                Item::Collection(_) => data is U8,
                Item::LogicalMinimum(v) => data == ShortDataPayload::U16(v),
                Item::LogicalMaximum(v) => data == ShortDataPayload::U16(v),
                Item::ReportSize(v) => data == ShortDataPayload::U8(v),
                Item::ReportCount(v) => data == ShortDataPayload::U8(v),
                _ => data == ShortDataPayload::Empty,
            },
    {
        match self {
            Item::Input(input) => input.make_payload(),
            Item::Collection(collection) => ShortDataPayload::U8(collection.tag()),
            Item::LogicalMinimum(minimum) => ShortDataPayload::U16(*minimum),
            Item::LogicalMaximum(maximum) => ShortDataPayload::U16(*maximum),
            Item::ReportSize(v) | Item::ReportCount(v) => ShortDataPayload::U8(*v),
            _ => ShortDataPayload::Empty,
        }
    }
}

/// Writes items one after the other into a buffer.
pub struct ReportDescriptorWriter<'a> {
    pub buf: &'a mut [u8],
    pub offset: usize,
}

impl<'a> ReportDescriptorWriter<'a> {
    /// The bytes written so far.
    pub open spec fn written(self) -> Seq<u8> {
        self.buf@.take(self.offset as int)
    }

    /// The part of the buffer behind what is written.
    pub open spec fn rest(self) -> Seq<u8> {
        self.buf@.skip(self.offset as int)
    }

    fn byte(&mut self, b: u8)
        requires
            old(self).offset < old(self).buf@.len(),
        ensures
            final(self).offset == old(self).offset + 1,
            final(self).buf@.len() == old(self).buf@.len(),
            final(self).written() == old(self).written().push(b),
            final(self).rest() == old(self).rest().skip(1),
            final(final(self).buf)@ == final(old(self).buf)@,
    {
        self.buf[self.offset] = b;
        self.offset = self.offset + 1;
    }

    /// Appends one item.
    pub fn item(&mut self, item: Item)
        requires
            item.supported(),
            old(self).offset + item.bytes().len() <= old(self).buf@.len(),
        ensures
            final(self).offset == old(self).offset + item.bytes().len(),
            final(self).buf@.len() == old(self).buf@.len(),
            final(self).written() == old(self).written() + item.bytes(),
            final(self).rest() == old(self).rest().skip(item.bytes().len() as int),
            final(self).buf@ == old(self).buf@.take(old(self).offset as int) + item.bytes() + old(
                self,
            ).buf@.skip(old(self).offset + item.bytes().len()),
            final(final(self).buf)@ == final(old(self).buf)@,
    {
        let ty: u8 = item.btype();
        let tag: u8 = item.btag();
        let data: ShortDataPayload = item.serialize_data();
        let datalen: u8 = data.len();
        assert((tag << 4) | (ty << 2) | datalen == tag * 16 + ty * 4 + datalen) by (bit_vector)
            requires
                tag < 16,
                ty < 4,
                datalen < 4,
        ;
        self.byte((tag << 4) | (ty << 2) | datalen);
        match data {
            ShortDataPayload::Empty => {},
            ShortDataPayload::U8(b) => {
                self.byte(b);
            },
            ShortDataPayload::U16(b) => {
                assert(b & 0xff == b % 256 && b >> 8 == b / 256 && b >> 8 < 256) by (bit_vector);
                self.byte((b & 0xff) as u8);
                self.byte((b >> 8) as u8);
            },
            ShortDataPayload::U32(b) => {
                assert(b & 0xff == b % 256 && (b >> 8) & 0xff == b / 256 % 256 && (b >> 16) & 0xff
                    == b / 65536 % 256 && (b >> 24) & 0xff == b / 16777216) by (bit_vector);
                self.byte((b & 0xff) as u8);
                self.byte(((b >> 8) & 0xff) as u8);
                self.byte(((b >> 16) & 0xff) as u8);
                self.byte(((b >> 24) & 0xff) as u8);
            },
        }
        assert(self.written() =~= old(self).written() + item.bytes());
        assert(self.rest() =~= old(self).rest().skip(item.bytes().len() as int));
        assert(self.buf@ =~= self.written() + self.rest());
    }
}

/// The bytes of a run of items.
pub open spec fn bytes_of_items(items: Seq<Item>) -> Seq<u8>
    decreases items.len(),
{
    if items.len() == 0 {
        seq![]
    } else {
        items[0].bytes() + bytes_of_items(items.drop_first())
    }
}

/// An application collection with one input of one bit.
pub open spec fn one_bit_report() -> Seq<u8> {
    seq![
        0xa1,  // Collection (Application)
        0x01,
        0x95,  // Report Count (1)
        0x01,
        0x75,  // Report Size (1)
        0x01,
        0x16,  // Logical Minimum (0)
        0x00,
        0x00,
        0x26,  // Logical Maximum (1)
        0x01,
        0x00,
        0x83,  // Input (Data,Var,Abs)
        0x02,
        0x00,
        0x00,
        0x00,
        0xc0,  // End Collection
    ]
}

/// Writes the descriptor of a report with one input of one bit, and returns its length.
pub fn build_report_descriptor(buf: &mut [u8]) -> (len: usize)
    requires
        one_bit_report().len() <= old(buf)@.len(),
    ensures
        len == one_bit_report().len(),
        final(buf)@ == one_bit_report() + old(buf)@.skip(len as int),
        len == 18,
        final(buf)@.take(18) == seq![
            0xa1u8,
            0x01,
            0x95,
            0x01,
            0x75,
            0x01,
            0x16,
            0x00,
            0x00,
            0x26,
            0x01,
            0x00,
            0x83,
            0x02,
            0x00,
            0x00,
            0x00,
            0xc0,
        ],
        final(buf)@.skip(18) == old(buf)@.skip(18),
{
    let mut writer = ReportDescriptorWriter { buf, offset: 0 };
    writer.item(Item::Collection(Collection::Application));
    writer.item(Item::ReportCount(1));
    writer.item(Item::ReportSize(1));
    writer.item(Item::LogicalMinimum(0));
    writer.item(Item::LogicalMaximum(1));
    writer.item(
        Item::Input(
            Input {
                constant: false,
                variable: true,
                relative: false,
                wrap: false,
                non_linear: false,
                no_preferred_state: false,
                null_state: false,
                buffered_bytes: false,
            },
        ),
    );
    writer.item(Item::EndCollection);
    assert(writer.written() =~= one_bit_report());
    assert(writer.buf@ =~= writer.written() + writer.rest());
    writer.offset
}

proof fn lemma_bytes_determine_payload(left: ShortDataPayload, right: ShortDataPayload)
    requires
        left.size_code() == right.size_code(),
        forall|i: int|
            0 <= i < left.bytes().len() ==> #[trigger] left.bytes()[i] == right.bytes()[i],
    ensures
        left == right,
{
    match (left, right) {
        (ShortDataPayload::U8(l), ShortDataPayload::U8(r)) => {
            assert(left.bytes()[0] == right.bytes()[0]);
        },
        (ShortDataPayload::U16(l), ShortDataPayload::U16(r)) => {
            assert(left.bytes()[0] == right.bytes()[0]);
            assert(left.bytes()[1] == right.bytes()[1]);
        },
        (ShortDataPayload::U32(l), ShortDataPayload::U32(r)) => {
            assert(left.bytes()[0] == right.bytes()[0]);
            assert(left.bytes()[1] == right.bytes()[1]);
            assert(left.bytes()[2] == right.bytes()[2]);
            assert(left.bytes()[3] == right.bytes()[3]);
            assert(l == r) by (bit_vector)
                requires
                    l % 256 == r % 256,
                    l / 256 % 256 == r / 256 % 256,
                    l / 65536 % 256 == r / 65536 % 256,
                    l / 16777216 == r / 16777216,
            ;
        },
        _ => {},
    }
}

/// The bytes of an item say where it ends and what it is: if two items begin the same bytes, they
/// are the same item and the same bytes follow.
pub proof fn law_item_bytes_are_unambiguous(
    left: Item,
    left_rest: Seq<u8>,
    right: Item,
    right_rest: Seq<u8>,
)
    requires
        left.supported(),
        right.supported(),
        left.bytes() + left_rest == right.bytes() + right_rest,
    ensures
        left == right,
        left_rest == right_rest,
{
    let all = left.bytes() + left_rest;
    assert(all[0] == left.header() && all[0] == right.header());
    assert(left.payload().size_code() == right.payload().size_code());
    let count = left.payload().bytes().len() as int;
    assert(count == right.payload().bytes().len());
    assert forall|i: int| 0 <= i < count implies left.payload().bytes()[i]
        == right.payload().bytes()[i] by {
        assert(all[i + 1] == left.payload().bytes()[i]);
        assert(all[i + 1] == right.payload().bytes()[i]);
    }
    lemma_bytes_determine_payload(left.payload(), right.payload());
    assert(left_rest =~= all.skip(count + 1));
    assert(right_rest =~= all.skip(count + 1));
}

/// A descriptor can be taken apart into items in one way only.
pub proof fn law_descriptor_is_unambiguous(left: Seq<Item>, right: Seq<Item>)
    requires
        forall|i: int| 0 <= i < left.len() ==> (#[trigger] left[i]).supported(),
        forall|i: int| 0 <= i < right.len() ==> (#[trigger] right[i]).supported(),
        bytes_of_items(left) == bytes_of_items(right),
    ensures
        left == right,
    decreases left.len(),
{
    if left.len() == 0 {
        if right.len() > 0 {
            assert(bytes_of_items(right).len() >= 1);
        }
    } else if right.len() == 0 {
        assert(bytes_of_items(left).len() >= 1);
    } else {
        law_item_bytes_are_unambiguous(
            left[0],
            bytes_of_items(left.drop_first()),
            right[0],
            bytes_of_items(right.drop_first()),
        );
        law_descriptor_is_unambiguous(left.drop_first(), right.drop_first());
        assert(left =~= seq![left[0]] + left.drop_first());
        assert(right =~= seq![right[0]] + right.drop_first());
    }
}

/// Every flag of an input item has a bit of its own: in the order of their names bits 0 to 6 and
/// bit 8. No other bit is ever set.
pub proof fn law_flags_have_their_own_bits(input: Input)
    ensures
        0 <= input.flags() < 512,
        input.flags() % 2 == 1 <==> input.constant,
        input.flags() / 2 % 2 == 1 <==> input.variable,
        input.flags() / 4 % 2 == 1 <==> input.relative,
        input.flags() / 8 % 2 == 1 <==> input.wrap,
        input.flags() / 16 % 2 == 1 <==> input.non_linear,
        input.flags() / 32 % 2 == 1 <==> input.no_preferred_state,
        input.flags() / 64 % 2 == 1 <==> input.null_state,
        input.flags() / 128 % 2 == 0,
        input.flags() / 256 % 2 == 1 <==> input.buffered_bytes,
{
}

/// The data bytes of an item make up its value, the lowest first, and the size code says how many
/// there are.
pub proof fn law_data_bytes_make_up_the_value(b: u8, w: u16, d: u32)
    ensures
        ShortDataPayload::Empty.bytes() == Seq::<u8>::empty(),
        ShortDataPayload::U8(b).bytes() == seq![b],
        ({
            let bytes = ShortDataPayload::U16(w).bytes();
            bytes.len() == 2 && bytes[0] + 256 * bytes[1] == w
        }),
        ({
            let bytes = ShortDataPayload::U32(d).bytes();
            bytes.len() == 4 && bytes[0] + 256 * bytes[1] + 65536 * bytes[2] + 16777216 * bytes[3]
                == d
        }),
        ShortDataPayload::Empty.size_code() == 0,
        ShortDataPayload::U8(b).size_code() == 1,
        ShortDataPayload::U16(w).size_code() == 2,
        ShortDataPayload::U32(d).size_code() == 3,
{
}

/// The bytes of an item hold its tag, its type and its size code in the first byte and its value in
/// those that follow.
pub proof fn law_item_bytes_hold_the_item(item: Item)
    requires
        item.supported(),
    ensures
        item.bytes().len() == 1 + item.payload().bytes().len(),
        item.bytes()[0] / 16 == item.item_tag(),
        item.bytes()[0] / 4 % 4 == item.item_type(),
        item.bytes()[0] % 4 == item.payload().size_code(),
        item.bytes().skip(1) == item.payload().bytes(),
        match item {
            Item::Input(input) => item.bytes().len() == 5 && item.bytes()[1] + 256
                * item.bytes()[2] == input.flags() && item.bytes()[3] == 0 && item.bytes()[4] == 0,
            Item::Collection(collection) => item.bytes().len() == 2 && item.bytes()[1]
                == collection.number(),
            Item::LogicalMinimum(v) => item.bytes().len() == 3 && item.bytes()[1] + 256
                * item.bytes()[2] == v,
            Item::LogicalMaximum(v) => item.bytes().len() == 3 && item.bytes()[1] + 256
                * item.bytes()[2] == v,
            Item::ReportSize(v) => item.bytes().len() == 2 && item.bytes()[1] == v,
            Item::ReportCount(v) => item.bytes().len() == 2 && item.bytes()[1] == v,
            _ => item.bytes().len() == 1,
        },
{
    assert(item.bytes().skip(1) =~= item.payload().bytes());
}

/// The main items are numbered from 8 on, the collections from zero in their order.
pub proof fn law_main_items(input: Input, collection: Collection)
    ensures
        Item::Input(input).item_type() == 0 && Item::Input(input).item_tag() == 8,
        Item::Output.item_type() == 0 && Item::Output.item_tag() == 9,
        Item::Collection(collection).item_type() == 0 && Item::Collection(collection).item_tag()
            == 10,
        Item::Feature.item_type() == 0 && Item::Feature.item_tag() == 11,
        Item::EndCollection.item_type() == 0 && Item::EndCollection.item_tag() == 12,
        Collection::Physical.number() == 0,
        Collection::Application.number() == 1,
        Collection::Logical.number() == 2,
        Collection::Report.number() == 3,
        Collection::NamedArray.number() == 4,
        Collection::UsageSwitch.number() == 5,
        Collection::UsageModifier.number() == 6,
{
}

/// The global items are numbered from zero in their order.
pub proof fn law_global_items(w: u16, b: u8)
    ensures
        Item::UsagePage.item_type() == 1 && Item::UsagePage.item_tag() == 0,
        Item::LogicalMinimum(w).item_type() == 1 && Item::LogicalMinimum(w).item_tag() == 1,
        Item::LogicalMaximum(w).item_type() == 1 && Item::LogicalMaximum(w).item_tag() == 2,
        Item::PhysicalMinimum.item_type() == 1 && Item::PhysicalMinimum.item_tag() == 3,
        Item::PhysicalMaximum.item_type() == 1 && Item::PhysicalMaximum.item_tag() == 4,
        Item::UnitExponent.item_type() == 1 && Item::UnitExponent.item_tag() == 5,
        Item::Unit.item_type() == 1 && Item::Unit.item_tag() == 6,
        Item::ReportSize(b).item_type() == 1 && Item::ReportSize(b).item_tag() == 7,
        Item::ReportId.item_type() == 1 && Item::ReportId.item_tag() == 8,
        Item::ReportCount(b).item_type() == 1 && Item::ReportCount(b).item_tag() == 9,
        Item::Push.item_type() == 1 && Item::Push.item_tag() == 10,
        Item::Pop.item_type() == 1 && Item::Pop.item_tag() == 11,
{
}

/// The local items are numbered from zero in their order. Tag 6 is not used.
pub proof fn law_local_items()
    ensures
        Item::Usage.item_type() == 2 && Item::Usage.item_tag() == 0,
        Item::UsageMinimum.item_type() == 2 && Item::UsageMinimum.item_tag() == 1,
        Item::UsageMaximum.item_type() == 2 && Item::UsageMaximum.item_tag() == 2,
        Item::DesignatorIndex.item_type() == 2 && Item::DesignatorIndex.item_tag() == 3,
        Item::DesignatorMinimum.item_type() == 2 && Item::DesignatorMinimum.item_tag() == 4,
        Item::DesignatorMaximum.item_type() == 2 && Item::DesignatorMaximum.item_tag() == 5,
        Item::StringIndex.item_type() == 2 && Item::StringIndex.item_tag() == 7,
        Item::StringMinimum.item_type() == 2 && Item::StringMinimum.item_tag() == 8,
        Item::StringMaximum.item_type() == 2 && Item::StringMaximum.item_tag() == 9,
        Item::Delimiter.item_type() == 2 && Item::Delimiter.item_tag() == 10,
{
}

/// The descriptor of one bit is an application collection around one input of one report of one
/// bit, which is variable and goes from zero to one.
pub proof fn law_one_bit_report_items(input: Input)
    requires
        input == (Input {
            constant: false,
            variable: true,
            relative: false,
            wrap: false,
            non_linear: false,
            no_preferred_state: false,
            null_state: false,
            buffered_bytes: false,
        }),
    ensures
        one_bit_report() == Item::Collection(Collection::Application).bytes() + Item::ReportCount(
            1,
        ).bytes() + Item::ReportSize(1).bytes() + Item::LogicalMinimum(0).bytes()
            + Item::LogicalMaximum(1).bytes() + Item::Input(input).bytes()
            + Item::EndCollection.bytes(),
{
    assert(one_bit_report() =~= Item::Collection(Collection::Application).bytes()
        + Item::ReportCount(1).bytes() + Item::ReportSize(1).bytes() + Item::LogicalMinimum(
        0,
    ).bytes() + Item::LogicalMaximum(1).bytes() + Item::Input(input).bytes()
        + Item::EndCollection.bytes());
}

} // verus!
