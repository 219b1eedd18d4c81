//! The typed binding of the canvas: a drawing call crosses as a binding id and
//! raw numbers, and goes straight to the drawing context.

use crate::text::{decimal, json_array, texts, to_decimal, to_json_array};
use vstd::prelude::*;

verus! {

pub const BIND_CANVAS2D_FILLRECT: u32 = 1;

pub const BIND_CANVAS2D_CLEARRECT: u32 = 2;

pub const BIND_CANVAS2D_STROKERECT: u32 = 3;

pub const BIND_CANVAS2D_RECT: u32 = 4;

pub const BIND_CANVAS2D_MOVETO: u32 = 5;

pub const BIND_CANVAS2D_LINETO: u32 = 6;

pub const BIND_CANVAS2D_TRANSLATE: u32 = 7;

pub const BIND_CANVAS2D_SCALE: u32 = 8;

pub const BIND_CANVAS2D_ROTATE: u32 = 9;

/// A drawing operation, with its coordinates as doubles.
#[derive(Clone, Copy, Debug, PartialEq, Eq, Structural)]
pub enum Drawing {
    FillRect(u64, u64, u64, u64),
    ClearRect(u64, u64, u64, u64),
    StrokeRect(u64, u64, u64, u64),
    Rect(u64, u64, u64, u64),
    MoveTo(u64, u64),
    LineTo(u64, u64),
    Translate(u64, u64),
    Scale(u64, u64),
    Rotate(u64),
}

/// The name of the method that a binding id stands for; empty for an id that
/// stands for none.
pub open spec fn bind_name(id: u32) -> Seq<char> {
    if id == BIND_CANVAS2D_FILLRECT {
        "fillRect"@
    } else if id == BIND_CANVAS2D_CLEARRECT {
        "clearRect"@
    } else if id == BIND_CANVAS2D_STROKERECT {
        "strokeRect"@
    } else if id == BIND_CANVAS2D_RECT {
        "rect"@
    } else if id == BIND_CANVAS2D_MOVETO {
        "moveTo"@
    } else if id == BIND_CANVAS2D_LINETO {
        "lineTo"@
    } else if id == BIND_CANVAS2D_TRANSLATE {
        "translate"@
    } else if id == BIND_CANVAS2D_SCALE {
        "scale"@
    } else if id == BIND_CANVAS2D_ROTATE {
        "rotate"@
    } else {
        ""@
    }
}

/// Names the method that a binding id stands for.
pub fn bind_method_name(id: u32) -> (name: &'static str)
    ensures
        name@ == bind_name(id),
{
    match id {
        BIND_CANVAS2D_FILLRECT => "fillRect",
        BIND_CANVAS2D_CLEARRECT => "clearRect",
        BIND_CANVAS2D_STROKERECT => "strokeRect",
        BIND_CANVAS2D_RECT => "rect",
        BIND_CANVAS2D_MOVETO => "moveTo",
        BIND_CANVAS2D_LINETO => "lineTo",
        BIND_CANVAS2D_TRANSLATE => "translate",
        BIND_CANVAS2D_SCALE => "scale",
        BIND_CANVAS2D_ROTATE => "rotate",
        _ => "",
    }
}

/// A drawing call.
pub struct BindCall {
    /// The handle of the drawing context.
    pub target: i64,
    pub id: u32,
    /// The numbers, where the engine handed any over.
    pub args: Option<Vec<u64>>,
    /// How many numbers the engine says there are.
    pub argc: usize,
    /// The numbers written out so far.
    pub written: Vec<String>,
}

/// What a drawing call consists of.
#[verifier::ext_equal]
pub struct BindView {
    pub target: i64,
    pub id: u32,
    pub args: Option<Seq<u64>>,
    pub argc: usize,
    pub written: Seq<Seq<char>>,
}

impl View for BindCall {
    type V = BindView;

    open spec fn view(&self) -> BindView {
        BindView {
            target: self.target,
            id: self.id,
            args: match self.args {
                Some(args) => Some(args@),
                None => None,
            },
            argc: self.argc,
            written: texts(self.written@),
        }
    }
}

/// The number at a position of a drawing call; zero where there is none.
pub open spec fn coordinate(b: BindView, i: int) -> u64 {
    match b.args {
        Some(args) => if i < b.argc && i < args.len() {
            args[i]
        } else {
            0
        },
        None => 0,
    }
}

/// The drawing operation that a call stands for.
pub open spec fn drawing(b: BindView) -> Option<Drawing> {
    let x = coordinate(b, 0);
    let y = coordinate(b, 1);
    let w = coordinate(b, 2);
    let h = coordinate(b, 3);
    if b.id == BIND_CANVAS2D_FILLRECT {
        Some(Drawing::FillRect(x, y, w, h))
    } else if b.id == BIND_CANVAS2D_CLEARRECT {
        Some(Drawing::ClearRect(x, y, w, h))
    } else if b.id == BIND_CANVAS2D_STROKERECT {
        Some(Drawing::StrokeRect(x, y, w, h))
    } else if b.id == BIND_CANVAS2D_RECT {
        Some(Drawing::Rect(x, y, w, h))
    } else if b.id == BIND_CANVAS2D_MOVETO {
        Some(Drawing::MoveTo(x, y))
    } else if b.id == BIND_CANVAS2D_LINETO {
        Some(Drawing::LineTo(x, y))
    } else if b.id == BIND_CANVAS2D_TRANSLATE {
        Some(Drawing::Translate(x, y))
    } else if b.id == BIND_CANVAS2D_SCALE {
        Some(Drawing::Scale(x, y))
    } else if b.id == BIND_CANVAS2D_ROTATE {
        Some(Drawing::Rotate(x))
    } else {
        None
    }
}

/// The texts that a drawing call on something else than a drawing context passes
/// to the bridge: the target, the method's name, and the numbers as JSON.
pub open spec fn bind_texts(b: BindView) -> Seq<Seq<char>> {
    seq![decimal(b.target as int), bind_name(b.id), json_array(b.written)]
}

impl BindCall {
    /// The number at a position; zero where there is none.
    pub fn coordinate(&self, i: usize) -> (bits: u64)
        ensures
            bits == coordinate(self@, i as int),
    {
        match &self.args {
            Some(args) => if i < self.argc && i < args.len() {
                args[i]
            } else {
                0
            },
            None => 0,
        }
    }

    /// The drawing operation that the call stands for.
    pub fn drawing(&self) -> (op: Option<Drawing>)
        ensures
            op == drawing(self@),
    {
        let x: u64 = self.coordinate(0);
        let y: u64 = self.coordinate(1);
        let w: u64 = self.coordinate(2);
        let h: u64 = self.coordinate(3);
        match self.id {
            BIND_CANVAS2D_FILLRECT => Some(Drawing::FillRect(x, y, w, h)),
            BIND_CANVAS2D_CLEARRECT => Some(Drawing::ClearRect(x, y, w, h)),
            BIND_CANVAS2D_STROKERECT => Some(Drawing::StrokeRect(x, y, w, h)),
            BIND_CANVAS2D_RECT => Some(Drawing::Rect(x, y, w, h)),
            BIND_CANVAS2D_MOVETO => Some(Drawing::MoveTo(x, y)),
            BIND_CANVAS2D_LINETO => Some(Drawing::LineTo(x, y)),
            BIND_CANVAS2D_TRANSLATE => Some(Drawing::Translate(x, y)),
            BIND_CANVAS2D_SCALE => Some(Drawing::Scale(x, y)),
            BIND_CANVAS2D_ROTATE => Some(Drawing::Rotate(x)),
            _ => None,
        }
    }

    /// The texts to pass to the bridge.
    pub fn bridge_texts(&self) -> (list: Vec<String>)
        ensures
            texts(list@) == bind_texts(self@),
    {
        let mut list: Vec<String> = Vec::new();
        list.push(to_decimal(self.target));
        list.push(bind_method_name(self.id).to_owned());
        list.push(to_json_array(&self.written));
        assert(texts(list@) =~= bind_texts(self@));
        list
    }
}

/// A binding id stands for a method if and only if it stands for a drawing
/// operation, and no two ids stand for the same method.
pub proof fn law_one_method_per_binding(b: BindView, other: u32)
    ensures
        drawing(b) is Some <==> bind_name(b.id).len() > 0,
        drawing(b) is Some && bind_name(b.id) == bind_name(other) ==> b.id == other,
{
    reveal_strlit("");
    reveal_strlit("fillRect");
    reveal_strlit("clearRect");
    reveal_strlit("strokeRect");
    reveal_strlit("rect");
    reveal_strlit("moveTo");
    reveal_strlit("lineTo");
    reveal_strlit("translate");
    reveal_strlit("scale");
    reveal_strlit("rotate");
    assert(bind_name(other).len() == 6 ==> bind_name(other)[0] == 'm' || bind_name(other)[0] == 'l'
        || bind_name(other)[0] == 'r');
    assert(bind_name(other).len() == 9 ==> bind_name(other)[0] == 'c' || bind_name(other)[0] == 't');
    assert(bind_name(b.id).len() == 6 ==> bind_name(b.id)[0] == 'm' || bind_name(b.id)[0] == 'l'
        || bind_name(b.id)[0] == 'r');
    assert(bind_name(b.id).len() == 9 ==> bind_name(b.id)[0] == 'c' || bind_name(b.id)[0] == 't');
}

/// A missing coordinate is drawn as zero.
pub proof fn law_missing_coordinate_is_zero(b: BindView, i: int)
    requires
        i >= b.argc || b.args is None,
    ensures
        coordinate(b, i) == 0,
{
}

}
