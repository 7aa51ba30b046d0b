//! A frame: windows by name, one of them in front.

use crate::event::Event;
use crate::layout::Rect;
use crate::paint::on_screen;
use crate::window::{Window, WindowModel};
use vstd::prelude::*;
use vstd::string::*;

verus! {

/// The windows of a frame, in the order in which they were opened, and
/// the name of the one in front.
pub struct FrameLayout {
    pub children: Vec<(String, Window)>,
    pub current: Option<String>,
}

/// What a frame holds.
pub struct FrameModel {
    pub children: Seq<(Seq<char>, WindowModel)>,
    pub current: Option<Seq<char>>,
}

/// The index of the first of `children` with the name `name`, or their
/// number where none has it.
pub open spec fn child_index(children: Seq<(Seq<char>, WindowModel)>, name: Seq<char>) -> int
    decreases children.len(),
{
    if children.len() == 0 {
        0
    } else if children[0].0 == name {
        0
    } else {
        1 + child_index(children.drop_first(), name)
    }
}

/// Where a name is found among the windows of a frame, a window of that
/// name stands.
pub proof fn child_index_finds(children: Seq<(Seq<char>, WindowModel)>, name: Seq<char>)
    ensures
        0 <= child_index(children, name) <= children.len(),
        child_index(children, name) < children.len() ==> children[child_index(
            children,
            name,
        )].0 == name,
    decreases children.len(),
{
    if children.len() > 0 && children[0].0 != name {
        child_index_finds(children.drop_first(), name);
    }
}

/// What rings the bell once for each of the first `k` of `children` that
/// rings at `event`.
pub open spec fn bells(children: Seq<(Seq<char>, WindowModel)>, event: Event, k: int) -> Seq<char>
    decreases k,
{
    if k <= 0 {
        Seq::empty()
    } else if children[k - 1].1.rings(event) {
        bells(children, event, k - 1) + "\x07"@
    } else {
        bells(children, event, k - 1)
    }
}

impl FrameModel {
    /// Whether the frame has a window of this name.
    pub open spec fn has(self, name: Seq<char>) -> bool {
        child_index(self.children, name) < self.children.len()
    }

    /// The window of this name.
    pub open spec fn window(self, name: Seq<char>) -> WindowModel
        recommends
            self.has(name),
    {
        self.children[child_index(self.children, name)].1
    }

    /// The frame with a window under a name: in the place of the window
    /// that had this name, or behind the others.
    pub open spec fn insert(self, name: Seq<char>, window: WindowModel) -> FrameModel {
        let index = child_index(self.children, name);
        FrameModel {
            children: if index < self.children.len() {
                self.children.update(index, (name, window))
            } else {
                self.children.push((name, window))
            },
            ..self
        }
    }

    /// The frame with the window of this name in front.
    pub open spec fn current(self, name: Seq<char>) -> FrameModel {
        FrameModel { current: Some(name), ..self }
    }

    /// The frame after each of its windows took an event, in a view of
    /// `rows` rows.
    pub open spec fn after(self, event: Event, rows: int) -> FrameModel {
        FrameModel {
            children: Seq::new(
                self.children.len(),
                |i: int| (self.children[i].0, self.children[i].1.after(event, rows)),
            ),
            ..self
        }
    }

    /// The frame after each of its windows took note that a window of
    /// this name has been opened.
    pub open spec fn with_window(self, name: Seq<char>) -> FrameModel {
        FrameModel {
            children: Seq::new(
                self.children.len(),
                |i: int| (self.children[i].0, self.children[i].1.with_window(name)),
            ),
            ..self
        }
    }

    /// The window in front, if the frame has one.
    pub open spec fn front(self) -> Option<WindowModel> {
        match self.current {
            Some(name) => if self.has(name) {
                Some(self.window(name))
            } else {
                None
            },
            None => None,
        }
    }

    /// Whether `out` is what drawing the frame into a rectangle sends to
    /// the terminal, at whatever times of day: the window in front, or
    /// nothing where no window is in front.
    pub open spec fn draws(self, rect: Rect, out: Seq<char>) -> bool {
        match self.front() {
            Some(window) => window.draws(rect, out),
            None => out == Seq::<char>::empty(),
        }
    }

    /// What the windows of the frame send to the terminal at an event.
    pub open spec fn says(self, event: Event) -> Seq<char> {
        bells(self.children, event, self.children.len() as int)
    }
}

impl View for FrameLayout {
    type V = FrameModel;

    open spec fn view(&self) -> FrameModel {
        FrameModel {
            children: Seq::new(
                self.children@.len(),
                |i: int| (self.children@[i].0@, self.children@[i].1@),
            ),
            current: match self.current {
                Some(name) => Some(name@),
                None => None,
            },
        }
    }
}

impl FrameLayout {
    /// The windows of the frame are in order.
    pub open spec fn wf(&self) -> bool {
        forall|i: int| 0 <= i < self.children@.len() ==> (#[trigger] self.children@[i]).1.wf()
    }

    /// A frame without windows.
    pub fn new() -> (frame: FrameLayout)
        ensures
            frame.wf(),
            frame@ == (FrameModel { children: Seq::empty(), current: None }),
    {
        let frame = FrameLayout { children: Vec::new(), current: None };
        proof {
            assert(frame@.children =~= Seq::empty());
        }
        frame
    }

    /// The index of the first window of this name, or the number of
    /// windows where none has it.
    pub fn find(&self, name: &str) -> (index: usize)
        ensures
            index == child_index(self@.children, name@),
            index <= self.children@.len(),
            index < self.children@.len() <==> self@.has(name@),
    {
        let wanted = name.to_owned();
        let ghost all = self@.children;
        let mut i: usize = 0;
        proof {
            assert(all.skip(0) =~= all);
        }
        while i < self.children.len()
            invariant
                i <= self.children@.len(),
                all == self@.children,
                wanted@ == name@,
                child_index(all, name@) == i + child_index(all.skip(i as int), name@),
            decreases self.children.len() - i,
        {
            proof {
                assert(all.skip(i as int)[0] == all[i as int]);
                assert(all.skip(i as int).drop_first() =~= all.skip(i + 1));
            }
            if self.children[i].0 == wanted {
                return i;
            }
            i = i + 1;
        }
        proof {
            assert(all.skip(i as int).len() == 0);
        }
        i
    }

    /// Whether the frame has a window of this name.
    pub fn has(&self, name: &str) -> (has: bool)
        ensures
            has == self@.has(name@),
    {
        self.find(name) < self.children.len()
    }

    /// Puts a window under a name: in the place of the window that had
    /// this name, or behind the others.
    pub fn insert(&mut self, name: String, window: Window)
        requires
            old(self).wf(),
            window.wf(),
        ensures
            final(self).wf(),
            final(self)@ == old(self)@.insert(name@, window@),
    {
        let index = self.find(name.as_str());
        if index < self.children.len() {
            self.children.set(index, (name, window));
        } else {
            self.children.push((name, window));
        }
        proof {
            assert(self@.children =~= old(self)@.insert(name@, window@).children);
        }
    }

    /// Puts the window of this name in front.
    pub fn current(&mut self, name: String)
        ensures
            final(self).children == old(self).children,
            final(self)@ == old(self)@.current(name@),
    {
        self.current = Some(name);
    }

    /// Hands an event to every window, in a view of `rows` rows. The
    /// result is what goes to the terminal.
    pub fn event(&mut self, event: &Event, rows: u16) -> (out: String)
        requires
            old(self).wf(),
        ensures
            final(self).wf(),
            final(self)@ == old(self)@.after(*event, rows as int),
            out@ == old(self)@.says(*event),
    {
        let mut out = String::new();
        let ghost before = self@;
        let mut i: usize = 0;
        while i < self.children.len()
            invariant
                i <= self.children@.len(),
                self.children@.len() == before.children.len(),
                self.current == old(self).current,
                before == old(self)@,
                self.wf(),
                out@ == bells(before.children, *event, i as int),
                forall|j: int|
                    0 <= j < i ==> (#[trigger] self.children@[j]).0@ == before.children[j].0
                        && self.children@[j].1@ == before.children[j].1.after(*event, rows as int),
                forall|j: int|
                    i <= j < self.children@.len() ==> (#[trigger] self.children@[j]).0@
                        == before.children[j].0 && self.children@[j].1@ == before.children[j].1,
            decreases self.children.len() - i,
        {
            let ghost held = self.children@;
            let (name, mut window) = self.children.remove(i);
            let bell = window.event(event, rows);
            self.children.insert(i, (name, window));
            if bell {
                out.append("\x07");
            }
            proof {
                assert forall|j: int| 0 <= j < self.children@.len() && j != i implies self.children@[j]
                    == held[j] by {}
            }
            i = i + 1;
        }
        proof {
            assert(self@.children =~= before.after(*event, rows as int).children);
        }
        out
    }

    /// Draws the window in front into a rectangle; the result is what
    /// goes to the terminal.
    pub fn draw(&self, rect: Rect) -> (out: String)
        requires
            self.wf(),
            on_screen(rect),
        ensures
            self@.draws(rect, out@),
    {
        match &self.current {
            Some(name) => {
                let index = self.find(name.as_str());
                if index < self.children.len() {
                    self.children[index].1.draw(rect)
                } else {
                    String::new()
                }
            },
            None => String::new(),
        }
    }

    /// Tells every window that a window of this name has been opened.
    pub fn add_window(&mut self, name: &str)
        requires
            old(self).wf(),
        ensures
            final(self).wf(),
            final(self)@ == old(self)@.with_window(name@),
    {
        let ghost before = self@;
        let mut i: usize = 0;
        while i < self.children.len()
            invariant
                i <= self.children@.len(),
                self.children@.len() == before.children.len(),
                self.current == old(self).current,
                before == old(self)@,
                self.wf(),
                forall|j: int|
                    0 <= j < i ==> (#[trigger] self.children@[j]).0@ == before.children[j].0
                        && self.children@[j].1@ == before.children[j].1.with_window(name@),
                forall|j: int|
                    i <= j < self.children@.len() ==> (#[trigger] self.children@[j]).0@
                        == before.children[j].0 && self.children@[j].1@ == before.children[j].1,
            decreases self.children.len() - i,
        {
            let ghost held = self.children@;
            let (child, mut window) = self.children.remove(i);
            window.add_window(name);
            self.children.insert(i, (child, window));
            proof {
                assert forall|j: int| 0 <= j < self.children@.len() && j != i implies self.children@[j]
                    == held[j] by {}
            }
            i = i + 1;
        }
        proof {
            assert(self@.children =~= before.with_window(name@).children);
        }
    }
}

impl crate::view::View<FrameLayout> {
    /// An empty frame: as wide and as high as its parent leaves room, not
    /// yet measured.
    pub fn new() -> (view: Self)
        ensures
            view.width == crate::view::Dimension::MatchParent,
            view.height == crate::view::Dimension::MatchParent,
            view.x == 0 && view.y == 0,
            view.w is None && view.h is None,
            view.dirty && view.visible,
            view.content.wf(),
            view.content@ == (FrameModel { children: Seq::empty(), current: None }),
    {
        crate::view::View {
            width: crate::view::Dimension::MatchParent,
            height: crate::view::Dimension::MatchParent,
            x: 0,
            y: 0,
            w: None,
            h: None,
            dirty: true,
            visible: true,
            content: FrameLayout::new(),
        }
    }
}

} // verus!
