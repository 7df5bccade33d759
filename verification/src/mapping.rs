//! How the lines of the port expanders and the analog channels are wired to the controls.
use vstd::prelude::*;

verus! {

pub struct DeviceMapping {
    pub buttons: [usize; 16],
    /// (up, down)
    pub dual_throws: [(usize, usize); 14],
    /// (press, A, B)
    pub encoders: [(usize, usize, usize); 6],
    pub axes: [usize; 8],
}

impl DeviceMapping {
    /// Every control is wired to a line of the 64-bit switch word, and every axis to one of the
    /// eight analog channels.
    pub open spec fn valid(self) -> bool {
        &&& forall|i: int| 0 <= i < 16 ==> #[trigger] self.buttons[i] < 64
        &&& forall|i: int|
            0 <= i < 14 ==> (#[trigger] self.dual_throws[i]).0 < 64 && self.dual_throws[i].1 < 64
        &&& forall|i: int|
            0 <= i < 6 ==> (#[trigger] self.encoders[i]).0 < 64 && self.encoders[i].1 < 64
                && self.encoders[i].2 < 64
        &&& forall|i: int| 0 <= i < 8 ==> #[trigger] self.axes[i] < 8
    }

    /// The line of contact `k`, counting the buttons first, then the up and down contacts of the
    /// double-throw switches, then the press, A and B contacts of the encoders.
    pub open spec fn contact(self, k: int) -> int {
        if k < 16 {
            self.buttons[k] as int
        } else if k < 44 {
            let switch = self.dual_throws[(k - 16) / 2];
            if k % 2 == 0 {
                switch.0 as int
            } else {
                switch.1 as int
            }
        } else {
            let encoder = self.encoders[(k - 44) / 3];
            if (k - 44) % 3 == 0 {
                encoder.0 as int
            } else if (k - 44) % 3 == 1 {
                encoder.1 as int
            } else {
                encoder.2 as int
            }
        }
    }

    /// The wiring of the first board.
    pub open spec fn is_version1(self) -> bool {
        &&& self.buttons@ == version1_buttons()
        &&& self.dual_throws@ == version1_dual_throws()
        &&& self.encoders@ == version1_encoders()
        &&& self.axes@ == version1_axes()
    }

    /// The wiring of the first board.
    pub fn version1() -> (mapping: DeviceMapping)
        ensures
            mapping.valid(),
            mapping.is_version1(),
            mapping.buttons@ == seq![
                47usize,
                46,
                44,
                45,
                40,
                41,
                42,
                43,
                32,
                33,
                34,
                35,
                36,
                37,
                38,
                39,
            ],
            mapping.dual_throws@ == seq![
                (3usize, 2usize),
                (5, 4),
                (7, 6),
                (9, 8),
                (11, 10),
                (13, 12),
                (15, 14),
                (1, 0),
                (28, 27),
                (30, 29),
                (26, 25),
                (20, 19),
                (22, 21),
                (24, 23),
            ],
            mapping.encoders@ == seq![
                (18usize, 17usize, 16usize),
                (53, 52, 51),
                (50, 49, 48),
                (56, 55, 54),
                (62, 61, 60),
                (59, 58, 57),
            ],
            mapping.axes@ == seq![3usize, 4, 1, 6, 2, 5, 0, 7],
    {
        let mapping = DeviceMapping {
            buttons: [47, 46, 44, 45, 40, 41, 42, 43, 32, 33, 34, 35, 36, 37, 38, 39],
            dual_throws: [
                (3, 2),
                (5, 4),
                (7, 6),
                (9, 8),
                (11, 10),
                (13, 12),
                (15, 14),
                (1, 0),
                (28, 27),
                (30, 29),
                (26, 25),
                (20, 19),
                (22, 21),
                (24, 23),
            ],
            encoders: [
                (18, 17, 16),
                (53, 52, 51),
                (50, 49, 48),
                (56, 55, 54),
                (62, 61, 60),
                (59, 58, 57),
            ],
            axes: [3, 4, 1, 6, 2, 5, 0, 7],
        };
        mapping
    }
}

pub open spec fn version1_buttons() -> Seq<usize> {
    seq![47, 46, 44, 45, 40, 41, 42, 43, 32, 33, 34, 35, 36, 37, 38, 39]
}

pub open spec fn version1_dual_throws() -> Seq<(usize, usize)> {
    seq![
        (3, 2),
        (5, 4),
        (7, 6),
        (9, 8),
        (11, 10),
        (13, 12),
        (15, 14),
        (1, 0),
        (28, 27),
        (30, 29),
        (26, 25),
        (20, 19),
        (22, 21),
        (24, 23),
    ]
}

pub open spec fn version1_encoders() -> Seq<(usize, usize, usize)> {
    seq![(18, 17, 16), (53, 52, 51), (50, 49, 48), (56, 55, 54), (62, 61, 60), (59, 58, 57)]
}

pub open spec fn version1_axes() -> Seq<usize> {
    seq![3, 4, 1, 6, 2, 5, 0, 7]
}

/// The contact that each line of the first board carries. Line 31 carries none.
spec fn version1_contact_on_line() -> Seq<int> {
    seq![
        31, 30, 17, 16, 19, 18, 21, 20, 23, 22, 25, 24, 27, 26, 29, 28, 46, 45, 44, 39, 38, 41,
        40, 43, 42, 37, 36, 33, 32, 35, 34, -1, 8, 9, 10, 11, 12, 13, 14, 15, 4, 5, 6, 7, 2, 3, 1,
        0, 52, 51, 50, 49, 48, 47, 55, 54, 53, 61, 60, 59, 58, 57, 56,
    ]
}

/// On the first board every contact has a line, which is neither line 31 nor line 63.
pub proof fn law_version1_contact_has_line(mapping: DeviceMapping, k: int)
    requires
        mapping.is_version1(),
        0 <= k < 62,
    ensures
        0 <= mapping.contact(k) < 63,
        mapping.contact(k) != 31,
{
    assert(0 <= mapping.contact(k) < 63 && version1_contact_on_line()[mapping.contact(k)] == k);
}

/// On the first board no two contacts share a line.
pub proof fn law_version1_contacts_have_their_own_lines(mapping: DeviceMapping, j: int, k: int)
    requires
        mapping.is_version1(),
        0 <= j < k < 62,
    ensures
        0 <= mapping.contact(j) < 63,
        mapping.contact(j) != mapping.contact(k),
{
    assert forall|i: int| 0 <= i < 62 implies 0 <= #[trigger] mapping.contact(i) < 63
        && version1_contact_on_line()[mapping.contact(i)] == i by {
    }
}

/// On the first board no two axes share an analog channel.
pub proof fn law_version1_axes_have_their_own_channels(mapping: DeviceMapping, j: int, k: int)
    requires
        mapping.is_version1(),
        0 <= j < k < 8,
    ensures
        mapping.axes[j] != mapping.axes[k],
{
}

/// How the first board is laid out. The push buttons lie on lines 32 to 47. The double-throw
/// switches lie on neighbouring lines, up above down, the encoders on three in a row, press above A
/// above B.
pub proof fn law_version1_layout(mapping: DeviceMapping, i: int)
    requires
        mapping.is_version1(),
    ensures
        4 <= i < 8 ==> mapping.buttons[i] == 36 + i,
        8 <= i < 16 ==> mapping.buttons[i] == 24 + i,
        mapping.buttons[0] == 47 && mapping.buttons[1] == 46 && mapping.buttons[2] == 44
            && mapping.buttons[3] == 45,
        0 <= i < 14 ==> mapping.dual_throws[i].0 == mapping.dual_throws[i].1 + 1,
        0 <= i < 7 ==> mapping.dual_throws[i].1 == 2 + 2 * i,
        mapping.dual_throws[7].1 == 0 && mapping.dual_throws[8].1 == 27
            && mapping.dual_throws[9].1 == 29 && mapping.dual_throws[10].1 == 25,
        11 <= i < 14 ==> mapping.dual_throws[i].1 == 19 + 2 * (i - 11),
        0 <= i < 6 ==> mapping.encoders[i].0 == mapping.encoders[i].1 + 1
            && mapping.encoders[i].1 == mapping.encoders[i].2 + 1,
        mapping.encoders[0].2 == 16 && mapping.encoders[1].2 == 51 && mapping.encoders[2].2 == 48
            && mapping.encoders[3].2 == 54 && mapping.encoders[4].2 == 60
            && mapping.encoders[5].2 == 57,
        mapping.axes[0] == 3 && mapping.axes[1] == 4 && mapping.axes[2] == 1 && mapping.axes[3] == 6
            && mapping.axes[4] == 2 && mapping.axes[5] == 5 && mapping.axes[6] == 0
            && mapping.axes[7] == 7,
{
}

/// The contacts are counted in the order of the controls: the push buttons, up and down of each
/// double-throw switch, then press, A and B of each encoder.
pub proof fn law_contacts_follow_the_controls(mapping: DeviceMapping, i: int)
    ensures
        0 <= i < 16 ==> mapping.contact(i) == mapping.buttons[i],
        0 <= i < 14 ==> mapping.contact(16 + 2 * i) == mapping.dual_throws[i].0,
        0 <= i < 14 ==> mapping.contact(17 + 2 * i) == mapping.dual_throws[i].1,
        0 <= i < 6 ==> mapping.contact(44 + 3 * i) == mapping.encoders[i].0,
        0 <= i < 6 ==> mapping.contact(45 + 3 * i) == mapping.encoders[i].1,
        0 <= i < 6 ==> mapping.contact(46 + 3 * i) == mapping.encoders[i].2,
{
}

} // verus!
