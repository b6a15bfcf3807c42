use vstd::prelude::*;

verus! {

/// A layout, as the term of layout-engine constructors that builds it.
/// The engine itself (compiling and rendering) takes this term as input.
#[derive(Debug, PartialEq, Eq)]
pub enum Layout {
    Null,
    Text(String),
    Fix(Box<Layout>),
    Group(Box<Layout>),
    Sequence(Box<Layout>),
    Nest(Box<Layout>),
    Pack(Box<Layout>),
    Line(Box<Layout>, Box<Layout>),
    Comp(Box<Layout>, Box<Layout>, bool, bool),
}

impl Layout {
    /// The empty layout.
    pub fn null() -> (r: Layout)
        ensures
            r == Layout::Null,
    {
        Layout::Null
    }

    /// A literal text.
    pub fn text(data: String) -> (r: Layout)
        ensures
            r == Layout::Text(data),
    {
        Layout::Text(data)
    }

    /// Marks a layout as never broken over lines.
    pub fn fix(layout: Layout) -> (r: Layout)
        ensures
            r == Layout::Fix(Box::new(layout)),
    {
        Layout::Fix(Box::new(layout))
    }

    /// Marks a layout as a group whose breaks are chosen together.
    pub fn grp(layout: Layout) -> (r: Layout)
        ensures
            r == Layout::Group(Box::new(layout)),
    {
        Layout::Group(Box::new(layout))
    }

    /// Marks a layout as a sequence: one break breaks all.
    pub fn seq(layout: Layout) -> (r: Layout)
        ensures
            r == Layout::Sequence(Box::new(layout)),
    {
        Layout::Sequence(Box::new(layout))
    }

    /// Indents a layout.
    pub fn nest(layout: Layout) -> (r: Layout)
        ensures
            r == Layout::Nest(Box::new(layout)),
    {
        Layout::Nest(Box::new(layout))
    }

    /// Marks a layout for compact packing.
    pub fn pack(layout: Layout) -> (r: Layout)
        ensures
            r == Layout::Pack(Box::new(layout)),
    {
        Layout::Pack(Box::new(layout))
    }

    /// Places `right` on the line after `left`.
    pub fn line(left: Layout, right: Layout) -> (r: Layout)
        ensures
            r == Layout::Line(Box::new(left), Box::new(right)),
    {
        Layout::Line(Box::new(left), Box::new(right))
    }

    /// Places `right` after `left` on one line, with a space if `pad`, and
    /// never broken there if `fix`.
    pub fn comp(left: Layout, right: Layout, pad: bool, fix: bool) -> (r: Layout)
        ensures
            r == Layout::Comp(Box::new(left), Box::new(right), pad, fix),
    {
        Layout::Comp(Box::new(left), Box::new(right), pad, fix)
    }

    /// A copy of this layout, equal to it.
    pub fn duplicate(&self) -> (r: Layout)
        ensures
            r == *self,
        decreases self,
    {
        match self {
            Layout::Null => Layout::Null,
            Layout::Text(s) => Layout::Text(s.clone()),
            Layout::Fix(c) => Layout::Fix(Box::new(c.duplicate())),
            Layout::Group(c) => Layout::Group(Box::new(c.duplicate())),
            Layout::Sequence(c) => Layout::Sequence(Box::new(c.duplicate())),
            Layout::Nest(c) => Layout::Nest(Box::new(c.duplicate())),
            Layout::Pack(c) => Layout::Pack(Box::new(c.duplicate())),
            Layout::Line(l, r) => Layout::Line(Box::new(l.duplicate()), Box::new(r.duplicate())),
            Layout::Comp(l, r, pad, fix) => Layout::Comp(
                Box::new(l.duplicate()),
                Box::new(r.duplicate()),
                *pad,
                *fix,
            ),
        }
    }
}

} // verus!
