use flightpanel::descriptor::{
    build_report_descriptor, Collection, Input, Item, ReportDescriptorWriter, ShortDataPayload,
};

const NO_FLAGS: Input = Input {
    constant: false,
    variable: false,
    relative: false,
    wrap: false,
    non_linear: false,
    no_preferred_state: false,
    null_state: false,
    buffered_bytes: false,
};

fn bytes_of(item: Item) -> Vec<u8> {
    let mut buf = [0xee; 8];
    let mut writer = ReportDescriptorWriter { buf: &mut buf, offset: 0 };
    writer.item(item);
    let len = writer.offset;
    assert!(buf[len..].iter().all(|&b| b == 0xee));
    buf[..len].to_vec()
}

#[test]
fn input_flags() {
    assert_eq!(NO_FLAGS.make_payload(), ShortDataPayload::U32(0));
    let every = Input {
        constant: true,
        variable: true,
        relative: true,
        wrap: true,
        non_linear: true,
        no_preferred_state: true,
        null_state: true,
        buffered_bytes: true,
    };
    assert_eq!(every.make_payload(), ShortDataPayload::U32(0x17f));
    let some = Input { constant: true, wrap: true, buffered_bytes: true, ..NO_FLAGS };
    assert_eq!(some.make_payload(), ShortDataPayload::U32(0x109));
}

#[test]
fn collection_tags() {
    assert_eq!(Collection::Physical.tag(), 0);
    assert_eq!(Collection::Application.tag(), 1);
    assert_eq!(Collection::Logical.tag(), 2);
    assert_eq!(Collection::Report.tag(), 3);
    assert_eq!(Collection::NamedArray.tag(), 4);
    assert_eq!(Collection::UsageSwitch.tag(), 5);
    assert_eq!(Collection::UsageModifier.tag(), 6);
}

#[test]
fn size_codes() {
    assert_eq!(ShortDataPayload::Empty.len(), 0);
    assert_eq!(ShortDataPayload::U8(0xff).len(), 1);
    assert_eq!(ShortDataPayload::U16(0xff).len(), 2);
    assert_eq!(ShortDataPayload::U32(0xff).len(), 3);
}

#[test]
fn types_and_tags() {
    assert_eq!((Item::Output.btype(), Item::Output.btag()), (0, 9));
    assert_eq!((Item::Feature.btype(), Item::Feature.btag()), (0, 11));
    assert_eq!((Item::EndCollection.btype(), Item::EndCollection.btag()), (0, 12));
    assert_eq!((Item::UsagePage.btype(), Item::UsagePage.btag()), (1, 0));
    assert_eq!((Item::Unit.btype(), Item::Unit.btag()), (1, 6));
    assert_eq!((Item::Push.btype(), Item::Push.btag()), (1, 10));
    assert_eq!((Item::Pop.btype(), Item::Pop.btag()), (1, 11));
    assert_eq!((Item::Usage.btype(), Item::Usage.btag()), (2, 0));
    assert_eq!((Item::StringIndex.btype(), Item::StringIndex.btag()), (2, 7));
    assert_eq!((Item::Delimiter.btype(), Item::Delimiter.btag()), (2, 10));
}

#[test]
fn item_bytes() {
    assert_eq!(bytes_of(Item::EndCollection), vec![0xc0]);
    assert_eq!(bytes_of(Item::Collection(Collection::Physical)), vec![0xa1, 0x00]);
    assert_eq!(bytes_of(Item::ReportSize(8)), vec![0x75, 0x08]);
    assert_eq!(bytes_of(Item::ReportCount(3)), vec![0x95, 0x03]);
    assert_eq!(bytes_of(Item::LogicalMinimum(0x1234)), vec![0x16, 0x34, 0x12]);
    assert_eq!(bytes_of(Item::LogicalMaximum(255)), vec![0x26, 0xff, 0x00]);
    let input = Input { variable: true, buffered_bytes: true, ..NO_FLAGS };
    assert_eq!(bytes_of(Item::Input(input)), vec![0x83, 0x02, 0x01, 0x00, 0x00]);
}

#[test]
fn one_bit_report_descriptor() {
    let mut buf = [0x55; 24];
    assert_eq!(build_report_descriptor(&mut buf), 18);
    assert_eq!(
        buf,
        [
            0xa1, 0x01, 0x95, 0x01, 0x75, 0x01, 0x16, 0x00, 0x00, 0x26, 0x01, 0x00, 0x83, 0x02,
            0x00, 0x00, 0x00, 0xc0, 0x55, 0x55, 0x55, 0x55, 0x55, 0x55,
        ]
    );
    let mut exact = [0; 18];
    assert_eq!(build_report_descriptor(&mut exact), 18);
    assert_eq!(exact[17], 0xc0);
}

#[test]
fn items_do_not_run_into_each_other() {
    let left = [bytes_of(Item::ReportCount(0x75)), bytes_of(Item::ReportSize(1))].concat();
    let right = [bytes_of(Item::ReportSize(0x75)), bytes_of(Item::ReportCount(1))].concat();
    assert_eq!(left, vec![0x95, 0x75, 0x75, 0x01]);
    assert_ne!(left, right);
}
