//! Sequencing of the frames of an animation.

use vstd::prelude::*;
use crate::decimal::{decimal, decimal_len, digit_byte, padded_decimal};

verus! {

/// The text of a byte sequence, one character per byte.
pub open spec fn text_of(bytes: Seq<u8>) -> Seq<char> {
    bytes.map_values(|b: u8| b as char)
}

/// What a frame is: its position in the animation and the number of frames.
pub struct FrameModel {
    pub current: nat,
    pub count: nat,
}

/// One frame of an animation of `count` frames; `current` counts from zero.
#[derive(Clone, Copy, Debug, PartialEq, Eq, Structural)]
pub struct Frame {
    current: usize,
    count: usize,
}

impl View for Frame {
    type V = FrameModel;

    closed spec fn view(&self) -> FrameModel {
        FrameModel { current: self.current as nat, count: self.count as nat }
    }
}

/// The text of one decimal digit.
fn digit_str(d: usize) -> (r: &'static str)
    requires
        d < 10,
    ensures
        r@ == seq![digit_byte(d as nat) as char],
{
    proof {
        reveal_strlit("0");
        reveal_strlit("1");
        reveal_strlit("2");
        reveal_strlit("3");
        reveal_strlit("4");
        reveal_strlit("5");
        reveal_strlit("6");
        reveal_strlit("7");
        reveal_strlit("8");
        reveal_strlit("9");
    }
    match d {
        0 => "0",
        1 => "1",
        2 => "2",
        3 => "3",
        4 => "4",
        5 => "5",
        6 => "6",
        7 => "7",
        8 => "8",
        _ => "9",
    }
}

/// Appends the decimal text of `n` to `s`.
fn append_decimal(s: &mut String, n: usize)
    ensures
        final(s)@ == old(s)@ + text_of(decimal(n as nat)),
    decreases n,
{
    if n >= 10 {
        append_decimal(s, n / 10);
    }
    s.append(digit_str(n % 10));
    proof {
        if n >= 10 {
            assert(decimal(n as nat) == decimal((n / 10) as nat).push(digit_byte((n % 10) as nat)));
        }
        assert(s@ =~= old(s)@ + text_of(decimal(n as nat)));
    }
}

/// Appends the decimal text of `n`, padded with zeros to `width` digits.
fn append_padded_decimal(s: &mut String, n: usize, width: usize)
    ensures
        final(s)@ == old(s)@ + text_of(padded_decimal(n as nat, width as nat)),
{
    let len = decimal_len(n);
    let mut k: usize = len;
    while k < width
        invariant
            len == decimal(n as nat).len(),
            len <= k <= width || (k == len && len >= width),
            s@ == old(s)@ + Seq::new((k - len) as nat, |i: int| '0'),
        decreases width - k,
    {
        proof {
            reveal_strlit("0");
        }
        s.append("0");
        assert(s@ =~= old(s)@ + Seq::new((k + 1 - len) as nat, |i: int| '0'));
        k = k + 1;
    }
    append_decimal(s, n);
    proof {
        let d = decimal(n as nat);
        if d.len() < width {
            let pad = Seq::new((width - d.len()) as nat, |i: int| digit_byte(0));
            assert(text_of(pad + d) =~= Seq::new((width - d.len()) as nat, |i: int| '0') + text_of(d));
        } else {
            assert(k == len);
        }
        assert(s@ =~= old(s)@ + text_of(padded_decimal(n as nat, width as nat)));
    }
}

impl Frame {
    pub fn new(count: usize, current: usize) -> (res: Frame)
        ensures
            res@ == (FrameModel { current: current as nat, count: count as nat }),
    {
        Frame { current, count }
    }

    /// The position of this frame, counting from zero.
    pub fn current(&self) -> (r: usize)
        ensures
            r == self@.current,
    {
        self.current
    }

    /// The number of frames in the animation.
    pub fn count(&self) -> (r: usize)
        ensures
            r == self@.count,
    {
        self.count
    }

    /// `path/name` followed by the frame's position, padded with zeros to six
    /// digits, and `suffix`.
    pub fn filename(&self, path: &str, name: &str, suffix: &str) -> (r: String)
        ensures
            r@ == path@ + seq!['/'] + name@ + text_of(padded_decimal(self@.current, 6)) + suffix@,
    {
        let mut s = String::from_str(path);
        proof {
            reveal_strlit("/");
        }
        s.append("/");
        s.append(name);
        append_padded_decimal(&mut s, self.current, 6);
        s.append(suffix);
        s
    }
}

/// Runs a step once per frame of an animation.
pub struct VAnimator {
    frame_count: usize,
}

impl View for VAnimator {
    type V = nat;

    /// The number of frames.
    closed spec fn view(&self) -> nat {
        self.frame_count as nat
    }
}

impl VAnimator {
    pub fn new(frame_count: usize) -> (res: VAnimator)
        ensures
            res@ == frame_count,
    {
        VAnimator { frame_count }
    }

    /// Calls `animate` on each frame in order, from position zero to the last.
    pub fn animate<F: Fn(Frame)>(&self, animate: F)
        requires
            forall|i: nat| i < self@ ==> #[trigger] animate.requires(
                (Frame::spec_new(self@, i),),
            ),
    {
        let mut current_frame: usize = 0;
        while current_frame < self.frame_count
            invariant
                current_frame <= self@,
                forall|i: nat| i < self@ ==> #[trigger] animate.requires(
                    (Frame::spec_new(self@, i),),
                ),
            decreases self@ - current_frame,
        {
            let frame = Frame::new(self.frame_count, current_frame);
            assert(frame == Frame::spec_new(self@, current_frame as nat));
            animate(frame);
            current_frame = current_frame + 1;
        }
    }
}

impl Frame {
    /// The frame at position `current` of an animation of `count` frames.
    pub closed spec fn spec_new(count: nat, current: nat) -> Frame {
        Frame { current: current as usize, count: count as usize }
    }
}

} // verus!
