//! Filling a menu of the system with the entries of a menu model.

use std::collections::HashMap;

use vstd::prelude::*;

use crate::ledger::Resource;
use crate::model::{
    CommandId, CommandView, ItemView, TrayCommandItem, TrayMenuItem, TraySubmenu,
};
use crate::system::{
    CallView, Reply, Step, SystemCall, MF_CHECKED, MF_GRAYED, MF_POPUP, MF_SEPARATOR, MF_STRING,
};
use crate::wide::to_wide;

verus! {

/// The flags of a command entry.
pub open spec fn command_flags_spec(enabled: bool, checked: bool) -> u32 {
    let shown = if enabled {
        MF_STRING
    } else {
        MF_STRING | MF_GRAYED
    };
    if checked {
        shown | MF_CHECKED
    } else {
        shown
    }
}

/// The call that puts a separator into a menu.
pub open spec fn separator_call(menu: usize) -> CallView {
    CallView::AppendMenu { menu, flags: MF_SEPARATOR, item: 0, text: None }
}

/// The call that puts a command into a menu.
pub open spec fn command_call(menu: usize, id: u32, command: CommandView) -> CallView {
    CallView::AppendMenu {
        menu,
        flags: command_flags_spec(command.enabled, command.checked),
        item: id as usize,
        text: Some(crate::wide::wide(command.label)),
    }
}

/// The call that puts a menu into another one.
pub open spec fn submenu_call(menu: usize, submenu: usize, label: Seq<char>) -> CallView {
    CallView::AppendMenu {
        menu,
        flags: MF_POPUP | MF_STRING,
        item: submenu,
        text: Some(crate::wide::wide(label)),
    }
}

/// How far the filling of a menu gets with a number of replies.
pub struct Progress {
    /// The replies that have not been used.
    pub left: Seq<Reply>,
    /// The call for which there was no reply.
    pub pending: Option<CallView>,
    /// The calls for which there was one, in order.
    pub made: Seq<(CallView, Reply)>,
    /// The number of the next command.
    pub next_id: u32,
    /// The commands by their numbers.
    pub map: Map<u32, CommandId>,
    /// The commands in the order in which they were numbered.
    pub listed: Seq<CommandId>,
    /// How many submenus the system would not make.
    pub refused: nat,
}

impl Progress {
    /// Makes a call, if there is a reply to go on with.
    pub open spec fn ask(self, call: CallView) -> Progress {
        if self.pending is Some {
            self
        } else if self.left.len() == 0 {
            Progress { pending: Some(call), ..self }
        } else {
            Progress {
                left: self.left.drop_first(),
                made: self.made.push((call, self.left[0])),
                ..self
            }
        }
    }

    /// Numbers a command.
    pub open spec fn list(self, command: CommandId) -> Progress {
        Progress {
            next_id: if self.next_id == u32::MAX {
                u32::MAX
            } else {
                (self.next_id + 1) as u32
            },
            map: self.map.insert(self.next_id, command),
            listed: self.listed.push(command),
            ..self
        }
    }

    /// Notes that the system would not make a submenu.
    pub open spec fn refuse(self) -> Progress {
        Progress { refused: self.refused + 1, ..self }
    }
}

/// What becomes of a map in which commands are found by their numbers, where the
/// filling of a menu gets from one point to the next: a command that was numbered
/// in between is put in.
pub open spec fn recorded(
    before: Progress,
    after: Progress,
    map: Map<u32, CommandId>,
) -> Map<u32, CommandId> {
    if after.listed.len() == before.listed.len() {
        map
    } else {
        map.insert(before.next_id, after.listed.last())
    }
}

/// Where the filling of a menu starts.
pub open spec fn beginning(replies: Seq<Reply>) -> Progress {
    Progress {
        left: replies,
        pending: None,
        made: Seq::empty(),
        next_id: 1,
        map: Map::empty(),
        listed: Seq::empty(),
        refused: 0,
    }
}

/// Puts entries into a menu, one after the other. A command gets a number
/// before it is put in. A submenu is made, filled, and then put in; where the
/// system makes none, the entry is left out with all that is in it.
pub open spec fn fill(menu: usize, items: Seq<ItemView>, at: Progress) -> Progress
    decreases items,
{
    if at.pending is Some || items.len() == 0 {
        at
    } else {
        let rest = items.drop_first();
        match items[0] {
            ItemView::Separator => fill(menu, rest, at.ask(separator_call(menu))),
            ItemView::Command(command) => fill(
                menu,
                rest,
                at.list(command.id).ask(command_call(menu, at.next_id, command)),
            ),
            ItemView::Submenu { label, items: inner } => {
                let opened = at.ask(CallView::CreateMenu);
                if opened.pending is Some {
                    opened
                } else {
                    let submenu = at.left[0].handle_spec();
                    if submenu == 0 {
                        fill(menu, rest, opened.refuse())
                    } else {
                        fill(
                            menu,
                            rest,
                            fill(submenu, inner, opened).ask(submenu_call(menu, submenu, label)),
                        )
                    }
                }
            },
        }
    }
}

/// The filling of a menu: the menu, its entries, and the replies to the calls
/// made so far.
pub struct MenuRun {
    pub menu: usize,
    pub items: Seq<ItemView>,
    pub replies: Seq<Reply>,
}

impl MenuRun {
    /// How far the filling has got.
    pub open spec fn progress(self) -> Progress {
        fill(self.menu, self.items, beginning(self.replies))
    }

    /// The call that is made after each sequence of replies.
    pub open spec fn calls(self) -> spec_fn(Seq<Reply>) -> Option<CallView> {
        |replies: Seq<Reply>| MenuRun { replies, ..self }.progress().pending
    }

    /// The run after one more reply.
    pub open spec fn after(self, reply: Reply) -> MenuRun {
        if self.progress().pending is None {
            self
        } else {
            MenuRun { replies: self.replies.push(reply), ..self }
        }
    }
}

/// A menu that is being filled, and the entries that are still to come.
struct Frame<'a> {
    menu: usize,
    items: &'a Vec<TrayMenuItem>,
    next: usize,
    label: &'a str,
}

/// A menu that is being filled, with what is still to come as a sequence.
struct FrameView {
    menu: usize,
    items: Seq<ItemView>,
    label: Seq<char>,
}

impl<'a> Frame<'a> {
    spec fn open_view(self) -> FrameView {
        FrameView {
            menu: self.menu,
            items: crate::model::items_view(self.items@).skip(self.next as int),
            label: self.label@,
        }
    }
}

/// What is done for the entry at hand.
enum Action<'a> {
    Separator { menu: usize },
    Command { menu: usize, id: u32, command: &'a TrayCommandItem },
    Open { submenu: &'a TraySubmenu },
    Attach { menu: usize, handle: usize, label: &'a str },
    Finished,
}

/// Fills the menus that are open, from the innermost out.
spec fn fill_rest(frames: Seq<FrameView>, at: Progress) -> Progress
    decreases frames.len(),
{
    if frames.len() == 0 {
        at
    } else {
        let top = frames.last();
        let done = fill(top.menu, top.items, at);
        if frames.len() == 1 {
            done
        } else {
            let below = frames.drop_last();
            fill_rest(below, done.ask(submenu_call(below.last().menu, top.menu, top.label)))
        }
    }
}

/// Does what is at hand, and then fills the menus that are open.
spec fn resume(action: Action, frames: Seq<FrameView>, at: Progress) -> Progress {
    match action {
        Action::Separator { menu } => fill_rest(frames, at.ask(separator_call(menu))),
        Action::Command { menu, id, command } => fill_rest(
            frames,
            at.ask(command_call(menu, id, command@)),
        ),
        Action::Open { submenu } => {
            let opened = at.ask(CallView::CreateMenu);
            if opened.pending is Some {
                opened
            } else {
                let handle = at.left[0].handle_spec();
                if handle == 0 {
                    fill_rest(frames, opened.refuse())
                } else {
                    fill_rest(
                        frames.push(
                            FrameView {
                                menu: handle,
                                items: crate::model::items_view(submenu.items@),
                                label: submenu.label@,
                            },
                        ),
                        opened,
                    )
                }
            }
        },
        Action::Attach { menu, handle, label } => fill_rest(
            frames,
            at.ask(submenu_call(menu, handle, label@)),
        ),
        Action::Finished => at,
    }
}

spec fn frame_views(frames: Seq<Frame>) -> Seq<FrameView> {
    frames.map_values(|frame: Frame| frame.open_view())
}

/// The filling of a menu.
pub struct MenuBuild<'a> {
    frames: Vec<Frame<'a>>,
    action: Action<'a>,
    next_id: u32,
    run: Ghost<MenuRun>,
    at: Ghost<Progress>,
}

impl<'a> View for MenuBuild<'a> {
    type V = MenuRun;

    closed spec fn view(&self) -> MenuRun {
        self.run@
    }
}

/// Nothing more is put into a menu once a call has no reply.
proof fn lemma_rest_waits(frames: Seq<FrameView>, at: Progress)
    requires
        at.pending is Some,
    ensures
        fill_rest(frames, at) == at,
    decreases frames.len(),
{
    if frames.len() > 1 {
        lemma_rest_waits(frames.drop_last(), at);
    }
}

impl<'a> MenuBuild<'a> {
    /// The progress, had it no replies but the given ones.
    spec fn progress_with(self, left: Seq<Reply>) -> Progress {
        Progress { left, ..self.at@ }
    }

    /// Whether what remains to be done, given more replies, leads where the
    /// whole filling would lead.
    pub closed spec fn wf(&self) -> bool {
        let run = self.run@;
        &&& self.at@.left.len() == 0
        &&& self.at@.pending is None
        &&& self.at@.next_id == self.next_id
        &&& forall|i: int|
            0 <= i < self.frames@.len() ==> (#[trigger] self.frames@[i]).next
                <= self.frames@[i].items@.len()
        &&& self.action is Finished ==> self.frames@.len() == 0
        &&& self.action !is Finished ==> self.frames@.len() > 0
        &&& forall|more: Seq<Reply>|
            #[trigger] fill(run.menu, run.items, beginning(run.replies + more)) == resume(
                self.action,
                frame_views(self.frames@),
                self.progress_with(more),
            )
    }

    /// Whether filling the open menus, given more replies, leads where the whole
    /// filling would lead.
    spec fn between(&self) -> bool {
        let run = self.run@;
        &&& self.at@.left.len() == 0
        &&& self.at@.pending is None
        &&& self.at@.next_id == self.next_id
        &&& forall|i: int|
            0 <= i < self.frames@.len() ==> (#[trigger] self.frames@[i]).next
                <= self.frames@[i].items@.len()
        &&& self.frames@.len() > 0
        &&& forall|more: Seq<Reply>|
            #[trigger] fill(run.menu, run.items, beginning(run.replies + more)) == fill_rest(
                frame_views(self.frames@),
                self.progress_with(more),
            )
    }

    /// Starts to fill a menu. The commands are put into a map as they are numbered.
    pub fn new(
        menu: usize,
        items: &'a Vec<TrayMenuItem>,
        map: &mut HashMap<u32, CommandId>,
    ) -> (build: MenuBuild<'a>)
        ensures
            final(map)@ == recorded(beginning(Seq::empty()), build@.progress(), old(map)@),
            build.wf(),
            build@ == (MenuRun {
                menu,
                items: crate::model::items_view(items@),
                replies: Seq::empty(),
            }),
    {
        let ghost run = MenuRun {
            menu,
            items: crate::model::items_view(items@),
            replies: Seq::empty(),
        };
        let mut frames: Vec<Frame<'a>> = Vec::new();
        frames.push(Frame { menu, items, next: 0, label: "" });
        let mut build = MenuBuild {
            frames,
            action: Action::Finished,
            next_id: 1,
            run: Ghost(run),
            at: Ghost(beginning(Seq::empty())),
        };
        proof {
            let views = frame_views(build.frames@);
            assert(views.last().items =~= run.items);
            assert forall|more: Seq<Reply>|
                #[trigger] fill(run.menu, run.items, beginning(run.replies + more)) == fill_rest(
                    views,
                    build.progress_with(more),
                ) by {
                assert(run.replies + more =~= more);
                assert(build.progress_with(more) == beginning(more));
            }
        }
        build.advance(map);
        proof {
            build.lemma_progress();
        }
        build
    }

    /// Takes up the next entry.
    fn advance(&mut self, map: &mut HashMap<u32, CommandId>)
        requires
            old(self).between(),
        ensures
            final(self).wf(),
            final(self).run@ == old(self).run@,
            final(map)@ == recorded(old(self).at@, final(self).at@, old(map)@),
    {
        broadcast use vstd::std_specs::hash::group_hash_axioms;

        let ghost before = *self;
        let ghost views = frame_views(self.frames@);
        let mut top = match self.frames.pop() {
            Some(top) => top,
            None => return ,
        };
        assert(views.drop_last() =~= frame_views(self.frames@));
        assert(views.last() == top.open_view());
        if top.next < top.items.len() {
            let menu: usize = top.menu;
            let items: &'a Vec<TrayMenuItem> = top.items;
            let item: &'a TrayMenuItem = &items[top.next];
            let ghost coming = top.open_view().items;
            assert(coming[0] == crate::model::item_view(*item));
            top.next = top.next + 1;
            assert(top.open_view().items =~= coming.drop_first());
            let ghost onward = views.drop_last().push(top.open_view());
            self.frames.push(top);
            assert(frame_views(self.frames@) =~= onward);
            assert(onward.drop_last() =~= views.drop_last());
            match item {
                TrayMenuItem::Separator => {
                    self.action = Action::Separator { menu };
                },
                TrayMenuItem::Command(command) => {
                    let id: u32 = self.next_id;
                    self.next_id = self.next_id.saturating_add(1);
                    map.insert(id, command.id);
                    self.action = Action::Command { menu, id, command };
                    self.at = Ghost(self.at@.list(command.id));
                },
                TrayMenuItem::Submenu(submenu) => {
                    self.action = Action::Open { submenu };
                    proof {
                        crate::model::lemma_submenu_view(*submenu);
                    }
                },
            }
            proof {
                let run = self.run@;
                assert forall|more: Seq<Reply>|
                    #[trigger] fill(run.menu, run.items, beginning(run.replies + more)) == resume(
                        self.action,
                        frame_views(self.frames@),
                        self.progress_with(more),
                    ) by {
                    let at = before.progress_with(more);
                    assert(fill(run.menu, run.items, beginning(run.replies + more)) == fill_rest(
                        views,
                        at,
                    ));
                    lemma_take_up(*item, views, onward, self.action, at);
                }
            }
        } else {
            let ghost done = top.open_view();
            assert(done.items.len() == 0);
            if self.frames.len() == 0 {
                self.action = Action::Finished;
            } else {
                let menu: usize = self.frames[self.frames.len() - 1].menu;
                self.action = Action::Attach { menu, handle: top.menu, label: top.label };
            }
            proof {
                let run = self.run@;
                assert forall|more: Seq<Reply>|
                    #[trigger] fill(run.menu, run.items, beginning(run.replies + more)) == resume(
                        self.action,
                        frame_views(self.frames@),
                        self.progress_with(more),
                    ) by {
                    let at = before.progress_with(more);
                    assert(fill(run.menu, run.items, beginning(run.replies + more)) == fill_rest(
                        views,
                        at,
                    ));
                    assert(self.progress_with(more) == at);
                    assert(fill(done.menu, done.items, at) == at);
                }
            }
        }
    }
}

impl<'a> MenuBuild<'a> {
    /// The progress is what has been kept of it, but for the call at hand.
    proof fn lemma_progress(&self)
        requires
            self.wf(),
        ensures
            self.action is Finished ==> self@.progress() == self.at@,
            self.action !is Finished ==> self@.progress() == (Progress {
                pending: Some(action_call(self.action)),
                ..self.at@
            }),
    {
        let run = self.run@;
        let none = Seq::<Reply>::empty();
        let at = self.progress_with(none);
        assert(run.replies + none =~= run.replies);
        assert(at.left =~= self.at@.left);
        assert(fill(run.menu, run.items, beginning(run.replies + none)) == resume(
            self.action,
            frame_views(self.frames@),
            at,
        ));
        if self.action !is Finished {
            lemma_rest_waits(frame_views(self.frames@), at.ask(action_call(self.action)));
        }
    }

    /// What comes next: a call, or the end.
    pub fn next(&self) -> (step: Step<()>)
        requires
            self.wf(),
        ensures
            match step {
                Step::Call(call) => self@.progress().pending == Some(call@),
                Step::Done(_) => self@.progress().pending is None,
            },
    {
        proof {
            self.lemma_progress();
        }
        match &self.action {
            Action::Separator { menu } => Step::Call(
                SystemCall::AppendMenu { menu: *menu, flags: MF_SEPARATOR, item: 0, text: None },
            ),
            Action::Command { menu, id, command } => Step::Call(
                append_command_item(*menu, *id, command),
            ),
            Action::Open { submenu: _ } => Step::Call(SystemCall::CreateMenu),
            Action::Attach { menu, handle, label } => Step::Call(
                SystemCall::AppendMenu {
                    menu: *menu,
                    flags: MF_POPUP | MF_STRING,
                    item: *handle,
                    text: Some(to_wide(label)),
                },
            ),
            Action::Finished => Step::Done(()),
        }
    }

    /// Takes the reply to the call that `next` gave.
    pub fn reply(&mut self, map: &mut HashMap<u32, CommandId>, reply: Reply)
        requires
            old(self).wf(),
        ensures
            final(self).wf(),
            final(self)@ == old(self)@.after(reply),
            final(map)@ == recorded(old(self)@.progress(), final(self)@.progress(), old(map)@),
    {
        proof {
            self.lemma_progress();
        }
        let ghost before = *self;
        let ghost call = action_call(self.action);
        let ghost views = frame_views(self.frames@);
        let ghost asked = before.progress_with(seq![reply]).ask(call);
        match &self.action {
            Action::Finished => return ,
            Action::Open { submenu } => {
                let submenu: &'a TraySubmenu = submenu;
                let handle: usize = reply.handle();
                if handle == 0 {
                    self.at = Ghost(asked.refuse());
                } else {
                    let ghost inner = FrameView {
                        menu: handle,
                        items: crate::model::items_view(submenu.items@),
                        label: submenu.label@,
                    };
                    let frame = Frame {
                        menu: handle,
                        items: &submenu.items,
                        next: 0,
                        label: submenu.label.as_str(),
                    };
                    assert(frame.open_view().items =~= inner.items);
                    self.frames.push(frame);
                    assert(frame_views(self.frames@) =~= views.push(inner));
                    self.at = Ghost(asked);
                }
            },
            _ => {
                self.at = Ghost(asked);
            },
        }
        self.run = Ghost(MenuRun { replies: self.run@.replies.push(reply), ..self.run@ });
        proof {
            let run = self.run@;
            assert(asked.left =~= Seq::<Reply>::empty());
            assert forall|more: Seq<Reply>|
                #[trigger] fill(run.menu, run.items, beginning(run.replies + more)) == fill_rest(
                    frame_views(self.frames@),
                    self.progress_with(more),
                ) by {
                let all = seq![reply] + more;
                let at = before.progress_with(all);
                assert(run.replies + more =~= before.run@.replies + all);
                assert(fill(run.menu, run.items, beginning(before.run@.replies + all)) == resume(
                    before.action,
                    views,
                    at,
                ));
                assert(at.left.drop_first() =~= more);
                assert(at.left[0] == reply);
                assert(at.ask(call) == (Progress { left: more, ..asked }));
            }
        }
        self.advance(map);
        proof {
            self.lemma_progress();
        }
    }

    /// Whether the menu is filled.
    pub fn finished(&self) -> (answer: bool)
        requires
            self.wf(),
        ensures
            answer == (self@.progress().pending is None),
            self@.progress().left.len() == 0,
    {
        proof {
            self.lemma_progress();
        }
        match self.action {
            Action::Finished => true,
            _ => false,
        }
    }
}

/// The call for the entry at hand.
spec fn action_call(action: Action) -> CallView {
    match action {
        Action::Separator { menu } => separator_call(menu),
        Action::Command { menu, id, command } => command_call(menu, id, command@),
        Action::Open { .. } => CallView::CreateMenu,
        Action::Attach { menu, handle, label } => submenu_call(menu, handle, label@),
        Action::Finished => CallView::CreateMenu,
    }
}

/// The flags of a command entry.
pub fn command_flags(enabled: bool, checked: bool) -> (flags: u32)
    ensures
        flags == command_flags_spec(enabled, checked),
{
    let mut flags: u32 = MF_STRING;
    if !enabled {
        flags = flags | MF_GRAYED;
    }
    if checked {
        flags = flags | MF_CHECKED;
    }
    flags
}

/// The call that puts a command with a number into a menu.
pub fn append_command_item(menu: usize, id: u32, command: &TrayCommandItem) -> (call: SystemCall)
    ensures
        call@ == command_call(menu, id, command@),
{
    SystemCall::AppendMenu {
        menu,
        flags: command_flags(command.enabled, command.checked),
        item: id as usize,
        text: Some(to_wide(command.label.as_str())),
    }
}

/// Taking up the next entry of the innermost menu leads where filling that menu
/// would.
proof fn lemma_take_up(
    item: TrayMenuItem,
    views: Seq<FrameView>,
    onward: Seq<FrameView>,
    action: Action,
    at: Progress,
)
    requires
        at.pending is None,
        views.len() > 0,
        views.last().items.len() > 0,
        views.last().items[0] == crate::model::item_view(item),
        onward == views.drop_last().push(
            FrameView { items: views.last().items.drop_first(), ..views.last() },
        ),
        match item {
            TrayMenuItem::Separator => action == (Action::Separator { menu: views.last().menu }),
            TrayMenuItem::Command(command) => action == (Action::Command {
                menu: views.last().menu,
                id: at.next_id,
                command: &command,
            }),
            TrayMenuItem::Submenu(submenu) => action == (Action::Open { submenu: &submenu }),
        },
    ensures
        fill_rest(views, at) == resume(
            action,
            onward,
            match item {
                TrayMenuItem::Command(command) => at.list(command.id),
                _ => at,
            },
        ),
{
    let top = views.last();
    let rest = top.items.drop_first();
    let below = views.drop_last();
    assert(onward.drop_last() =~= below);
    assert(onward.last().items == rest && onward.last().menu == top.menu && onward.last().label
        == top.label);
    match item {
        TrayMenuItem::Separator => {},
        TrayMenuItem::Command(command) => {},
        TrayMenuItem::Submenu(submenu) => {
            crate::model::lemma_submenu_view(submenu);
            let opened = at.ask(CallView::CreateMenu);
            if opened.pending is Some {
                lemma_rest_waits(below, opened);
                lemma_rest_waits(views, opened);
            } else {
                let handle = at.left[0].handle_spec();
                let inner = FrameView {
                    menu: handle,
                    items: crate::model::items_view(submenu.items@),
                    label: submenu.label@,
                };
                assert(onward.push(inner).drop_last() =~= onward);
                if handle == 0 {
                    assert(fill(top.menu, top.items, at) == fill(top.menu, rest, opened.refuse()));
                } else {
                    let filled = fill(handle, inner.items, opened).ask(
                        submenu_call(top.menu, handle, inner.label),
                    );
                    assert(fill(top.menu, top.items, at) == fill(top.menu, rest, filled));
                    assert(fill_rest(onward.push(inner), opened) == fill_rest(onward, filled));
                }
            }
        },
    }
}

/// The commands of a menu and of the menus in it, in the order in which they
/// are read.
pub open spec fn commands_of(items: Seq<ItemView>) -> Seq<CommandId>
    decreases items,
{
    if items.len() == 0 {
        Seq::empty()
    } else {
        let rest = items.drop_first();
        match items[0] {
            ItemView::Separator => commands_of(rest),
            ItemView::Command(command) => seq![command.id] + commands_of(rest),
            ItemView::Submenu { label, items: inner } => commands_of(inner) + commands_of(rest),
        }
    }
}

/// How many calls it takes, at most, to fill a menu.
pub open spec fn calls_of(items: Seq<ItemView>) -> nat
    decreases items,
{
    if items.len() == 0 {
        0
    } else {
        let rest = items.drop_first();
        match items[0] {
            ItemView::Submenu { label, items: inner } => 2 + calls_of(inner) + calls_of(rest),
            _ => 1 + calls_of(rest),
        }
    }
}

/// Commands by numbers that count up from one. There is a highest number: it
/// stays with the last command.
pub open spec fn numbering(listed: Seq<CommandId>) -> Map<u32, CommandId> {
    Map::new(
        |id: u32| 1 <= id <= listed.len(),
        |id: u32|
            if id < u32::MAX {
                listed[id - 1]
            } else {
                listed.last()
            },
    )
}

/// Whether the commands that were numbered have the numbers that they should.
spec fn numbered(at: Progress) -> bool {
    &&& at.map == numbering(at.listed)
    &&& at.next_id == if at.listed.len() < u32::MAX {
        at.listed.len() + 1
    } else {
        u32::MAX as nat
    }
}

proof fn lemma_list_numbered(at: Progress, command: CommandId)
    requires
        numbered(at),
    ensures
        numbered(at.list(command)),
{
    let next = at.list(command);
    assert forall|id: u32| #[trigger] next.map.contains_key(id) <==> numbering(
        next.listed,
    ).contains_key(id) by {
        assert(at.map.contains_key(id) <==> numbering(at.listed).contains_key(id));
    }
    assert(next.map =~= numbering(next.listed));
}

proof fn lemma_fill_numbered(menu: usize, items: Seq<ItemView>, at: Progress)
    requires
        numbered(at),
    ensures
        numbered(fill(menu, items, at)),
    decreases items,
{
    if at.pending is None && items.len() > 0 {
        let rest = items.drop_first();
        match items[0] {
            ItemView::Separator => {
                lemma_fill_numbered(menu, rest, at.ask(separator_call(menu)));
            },
            ItemView::Command(command) => {
                lemma_list_numbered(at, command.id);
                lemma_fill_numbered(
                    menu,
                    rest,
                    at.list(command.id).ask(command_call(menu, at.next_id, command)),
                );
            },
            ItemView::Submenu { label, items: inner } => {
                let opened = at.ask(CallView::CreateMenu);
                if opened.pending is None {
                    let submenu = at.left[0].handle_spec();
                    if submenu == 0 {
                        lemma_fill_numbered(menu, rest, opened.refuse());
                    } else {
                        lemma_fill_numbered(submenu, inner, opened);
                        lemma_fill_numbered(
                            menu,
                            rest,
                            fill(submenu, inner, opened).ask(submenu_call(menu, submenu, label)),
                        );
                    }
                }
            },
        }
    }
}

/// The numbers that the command entries among some calls carry, in order.
pub open spec fn numbers_shown(made: Seq<(CallView, Reply)>) -> Seq<usize>
    decreases made.len(),
{
    if made.len() == 0 {
        Seq::empty()
    } else {
        let before = numbers_shown(made.drop_last());
        match made.last().0 {
            CallView::AppendMenu { flags, item, .. } => if flags != MF_SEPARATOR && flags
                != MF_POPUP | MF_STRING {
                before.push(item)
            } else {
                before
            },
            _ => before,
        }
    }
}

/// The number of a command, by its place among those listed.
pub open spec fn number_of(place: int) -> int {
    if place + 1 < u32::MAX {
        place + 1
    } else {
        u32::MAX as int
    }
}

/// Whether the entries made so far carry the numbers of their commands.
spec fn shown(at: Progress) -> bool {
    &&& numbered(at)
    &&& at.pending is None ==> {
        let numbers = numbers_shown(at.made);
        &&& numbers.len() == at.listed.len()
        &&& forall|i: int| 0 <= i < numbers.len() ==> #[trigger] numbers[i] == number_of(i)
    }
}

proof fn lemma_ask_shown(at: Progress, call: CallView)
    requires
        at.pending is None,
        at.left.len() > 0,
    ensures
        numbers_shown(at.ask(call).made) == match call {
            CallView::AppendMenu { flags, item, .. } => if flags != MF_SEPARATOR && flags
                != MF_POPUP | MF_STRING {
                numbers_shown(at.made).push(item)
            } else {
                numbers_shown(at.made)
            },
            _ => numbers_shown(at.made),
        },
{
    assert(at.ask(call).made.drop_last() =~= at.made);
}

proof fn lemma_fill_shown(menu: usize, items: Seq<ItemView>, at: Progress)
    requires
        shown(at),
    ensures
        shown(fill(menu, items, at)),
    decreases items,
{
    if at.pending is None && items.len() > 0 {
        let rest = items.drop_first();
        match items[0] {
            ItemView::Separator => {
                if at.left.len() > 0 {
                    lemma_ask_shown(at, separator_call(menu));
                }
                lemma_fill_shown(menu, rest, at.ask(separator_call(menu)));
            },
            ItemView::Command(command) => {
                let listed = at.list(command.id);
                let call = command_call(menu, at.next_id, command);
                law_flags_tell_entries_apart(command.enabled, command.checked);
                lemma_list_numbered(at, command.id);
                if at.left.len() > 0 {
                    lemma_ask_shown(listed, call);
                }
                lemma_fill_shown(menu, rest, listed.ask(call));
            },
            ItemView::Submenu { label, items: inner } => {
                let opened = at.ask(CallView::CreateMenu);
                if opened.pending is None {
                    lemma_ask_shown(at, CallView::CreateMenu);
                    let submenu = at.left[0].handle_spec();
                    if submenu == 0 {
                        lemma_fill_shown(menu, rest, opened.refuse());
                    } else {
                        let filled = fill(submenu, inner, opened);
                        let call = submenu_call(menu, submenu, label);
                        lemma_fill_shown(submenu, inner, opened);
                        if filled.pending is None && filled.left.len() > 0 {
                            lemma_ask_shown(filled, call);
                        }
                        lemma_fill_shown(menu, rest, filled.ask(call));
                    }
                }
            },
        }
    }
}

proof fn lemma_fill_listed(menu: usize, items: Seq<ItemView>, at: Progress)
    ensures
        fill(menu, items, at).refused >= at.refused,
        fill(menu, items, at).pending is None && fill(menu, items, at).refused == at.refused
            ==> fill(menu, items, at).listed == at.listed + commands_of(items),
    decreases items,
{
    if at.pending is None && items.len() > 0 {
        let rest = items.drop_first();
        match items[0] {
            ItemView::Separator => {
                lemma_fill_listed(menu, rest, at.ask(separator_call(menu)));
            },
            ItemView::Command(command) => {
                lemma_fill_listed(
                    menu,
                    rest,
                    at.list(command.id).ask(command_call(menu, at.next_id, command)),
                );
                assert(at.listed.push(command.id) + commands_of(rest) =~= at.listed + commands_of(
                    items,
                ));
            },
            ItemView::Submenu { label, items: inner } => {
                let opened = at.ask(CallView::CreateMenu);
                if opened.pending is None {
                    let submenu = at.left[0].handle_spec();
                    if submenu == 0 {
                        lemma_fill_listed(menu, rest, opened.refuse());
                    } else {
                        let filled = fill(submenu, inner, opened);
                        let attached = filled.ask(submenu_call(menu, submenu, label));
                        lemma_fill_listed(submenu, inner, opened);
                        lemma_fill_listed(menu, rest, attached);
                        assert(at.listed + commands_of(inner) + commands_of(rest) =~= at.listed
                            + commands_of(items));
                    }
                }
            },
        }
    } else {
        assert(at.listed + Seq::<CommandId>::empty() =~= at.listed);
    }
}

proof fn lemma_fill_ends(menu: usize, items: Seq<ItemView>, at: Progress)
    requires
        at.pending is None,
        at.left.len() >= calls_of(items),
    ensures
        fill(menu, items, at).pending is None,
        fill(menu, items, at).left.len() >= at.left.len() - calls_of(items),
    decreases items,
{
    if items.len() > 0 {
        let rest = items.drop_first();
        match items[0] {
            ItemView::Separator => {
                lemma_fill_ends(menu, rest, at.ask(separator_call(menu)));
            },
            ItemView::Command(command) => {
                lemma_fill_ends(
                    menu,
                    rest,
                    at.list(command.id).ask(command_call(menu, at.next_id, command)),
                );
            },
            ItemView::Submenu { label, items: inner } => {
                let opened = at.ask(CallView::CreateMenu);
                let submenu = at.left[0].handle_spec();
                if submenu == 0 {
                    lemma_fill_ends(menu, rest, opened.refuse());
                } else {
                    lemma_fill_ends(submenu, inner, opened);
                    lemma_fill_ends(
                        menu,
                        rest,
                        fill(submenu, inner, opened).ask(submenu_call(menu, submenu, label)),
                    );
                }
            },
        }
    }
}

proof fn lemma_ask_held(at: Progress, call: CallView, resource: Resource)
    requires
        at.pending is None,
        at.left.len() > 0,
    ensures
        crate::ledger::held(at.ask(call).made, resource) == crate::ledger::held(at.made, resource) + crate::ledger::held_change(
            call,
            at.left[0],
            resource,
        ),
{
    crate::ledger::lemma_held_push(at.made, call, at.left[0], resource);
}

proof fn lemma_fill_held(menu: usize, items: Seq<ItemView>, at: Progress, resource: Resource)
    ensures
        fill(menu, items, at).pending is None ==> crate::ledger::held(
            fill(menu, items, at).made,
            resource,
        ) == crate::ledger::held(at.made, resource),
    decreases items,
{
    if at.pending is None && items.len() > 0 {
        let rest = items.drop_first();
        match items[0] {
            ItemView::Separator => {
                let call = separator_call(menu);
                law_flags_tell_entries_apart(true, true);
                lemma_fill_held(menu, rest, at.ask(call), resource);
                if at.left.len() > 0 {
                    lemma_ask_held(at, call, resource);
                }
            },
            ItemView::Command(command) => {
                let call = command_call(menu, at.next_id, command);
                let listed = at.list(command.id);
                law_flags_tell_entries_apart(command.enabled, command.checked);
                lemma_fill_held(menu, rest, listed.ask(call), resource);
                if at.left.len() > 0 {
                    lemma_ask_held(listed, call, resource);
                }
            },
            ItemView::Submenu { label, items: inner } => {
                let opened = at.ask(CallView::CreateMenu);
                if opened.pending is None {
                    let submenu = at.left[0].handle_spec();
                    lemma_ask_held(at, CallView::CreateMenu, resource);
                    if submenu == 0 {
                        lemma_fill_held(menu, rest, opened.refuse(), resource);
                    } else {
                        let filled = fill(submenu, inner, opened);
                        let call = submenu_call(menu, submenu, label);
                        lemma_fill_held(submenu, inner, opened, resource);
                        lemma_fill_held(menu, rest, filled.ask(call), resource);
                        if filled.pending is None && filled.left.len() > 0 {
                            lemma_ask_held(filled, call, resource);
                        }
                    }
                }
            },
        }
    }
}

/// The text of an entry. A separator has none.
pub open spec fn entry_text(item: ItemView) -> Option<Seq<u16>> {
    match item {
        ItemView::Separator => None,
        ItemView::Command(command) => Some(crate::wide::wide(command.label)),
        ItemView::Submenu { label, .. } => Some(crate::wide::wide(label)),
    }
}

/// The texts of the entries that some calls put into a menu, in order.
pub open spec fn texts_in(made: Seq<(CallView, Reply)>, menu: usize) -> Seq<Option<Seq<u16>>>
    decreases made.len(),
{
    if made.len() == 0 {
        Seq::empty()
    } else {
        let before = texts_in(made.drop_last(), menu);
        match made.last().0 {
            CallView::AppendMenu { menu: into, text, .. } => if into == menu {
                before.push(text)
            } else {
                before
            },
            _ => before,
        }
    }
}

/// Whether none of the menus that were made from a call on is a given one.
pub open spec fn made_others(made: Seq<(CallView, Reply)>, from: nat, menu: usize) -> bool {
    forall|i: int|
        from <= i < made.len() && (#[trigger] made[i]).0 is CreateMenu ==> made[i].1.handle_spec()
            != menu
}

/// Calls are only ever added, and so are refusals.
proof fn lemma_fill_grows(menu: usize, items: Seq<ItemView>, at: Progress)
    ensures
        at.made.len() <= fill(menu, items, at).made.len(),
        forall|i: int|
            0 <= i < at.made.len() ==> at.made[i] == #[trigger] fill(menu, items, at).made[i],
        at.refused <= fill(menu, items, at).refused,
    decreases items,
{
    if at.pending is None && items.len() > 0 {
        let rest = items.drop_first();
        match items[0] {
            ItemView::Separator => {
                lemma_fill_grows(menu, rest, at.ask(separator_call(menu)));
            },
            ItemView::Command(command) => {
                lemma_fill_grows(
                    menu,
                    rest,
                    at.list(command.id).ask(command_call(menu, at.next_id, command)),
                );
            },
            ItemView::Submenu { label, items: inner } => {
                let opened = at.ask(CallView::CreateMenu);
                let submenu = at.left[0].handle_spec();
                if submenu == 0 {
                    lemma_fill_grows(menu, rest, opened.refuse());
                } else {
                    lemma_fill_grows(submenu, inner, opened);
                    lemma_fill_grows(
                        menu,
                        rest,
                        fill(submenu, inner, opened).ask(submenu_call(menu, submenu, label)),
                    );
                }
            },
        }
    }
}

proof fn lemma_texts_push(made: Seq<(CallView, Reply)>, call: CallView, reply: Reply, menu: usize)
    ensures
        texts_in(made.push((call, reply)), menu) == match call {
            CallView::AppendMenu { menu: into, text, .. } => if into == menu {
                texts_in(made, menu).push(text)
            } else {
                texts_in(made, menu)
            },
            _ => texts_in(made, menu),
        },
{
    assert(made.push((call, reply)).drop_last() =~= made);
}

/// Filling one menu puts nothing into another.
proof fn lemma_fill_elsewhere(menu: usize, items: Seq<ItemView>, at: Progress, other: usize)
    requires
        menu != other,
        fill(menu, items, at).pending is None,
        made_others(fill(menu, items, at).made, at.made.len(), other),
    ensures
        texts_in(fill(menu, items, at).made, other) == texts_in(at.made, other),
    decreases items,
{
    if items.len() > 0 {
        let rest = items.drop_first();
        let done = fill(menu, items, at);
        match items[0] {
            ItemView::Separator => {
                let next = at.ask(separator_call(menu));
                lemma_fill_grows(menu, rest, next);
                lemma_texts_push(at.made, separator_call(menu), at.left[0], other);
                lemma_fill_elsewhere(menu, rest, next, other);
            },
            ItemView::Command(command) => {
                let call = command_call(menu, at.next_id, command);
                let next = at.list(command.id).ask(call);
                lemma_fill_grows(menu, rest, next);
                lemma_texts_push(at.made, call, at.left[0], other);
                lemma_fill_elsewhere(menu, rest, next, other);
            },
            ItemView::Submenu { label, items: inner } => {
                let opened = at.ask(CallView::CreateMenu);
                let submenu = at.left[0].handle_spec();
                lemma_texts_push(at.made, CallView::CreateMenu, at.left[0], other);
                if submenu == 0 {
                    lemma_fill_elsewhere(menu, rest, opened.refuse(), other);
                } else {
                    let filled = fill(submenu, inner, opened);
                    let call = submenu_call(menu, submenu, label);
                    let next = filled.ask(call);
                    lemma_fill_grows(submenu, inner, opened);
                    lemma_fill_grows(menu, rest, next);
                    assert(done.made[at.made.len() as int] == opened.made.last());
                    assert(submenu != other);
                    assert forall|i: int|
                        opened.made.len() <= i < filled.made.len() && (
                        #[trigger] filled.made[i]).0 is CreateMenu implies filled.made[i].1.handle_spec()
                        != other by {
                        assert(filled.made[i] == done.made[i]);
                    }
                    lemma_fill_elsewhere(submenu, inner, opened, other);
                    lemma_texts_push(filled.made, call, filled.left[0], other);
                    lemma_fill_elsewhere(menu, rest, next, other);
                }
            },
        }
    }
}

/// Filling a menu asks for menus and for entries, and for nothing else.
pub(crate) proof fn lemma_fill_asks(menu: usize, items: Seq<ItemView>, at: Progress)
    requires
        at.pending matches Some(call) ==> call is CreateMenu || call is AppendMenu,
    ensures
        fill(menu, items, at).pending matches Some(call) ==> call is CreateMenu
            || call is AppendMenu,
    decreases items,
{
    if at.pending is None && items.len() > 0 {
        let rest = items.drop_first();
        match items[0] {
            ItemView::Separator => {
                lemma_fill_asks(menu, rest, at.ask(separator_call(menu)));
            },
            ItemView::Command(command) => {
                lemma_fill_asks(
                    menu,
                    rest,
                    at.list(command.id).ask(command_call(menu, at.next_id, command)),
                );
            },
            ItemView::Submenu { label, items: inner } => {
                let opened = at.ask(CallView::CreateMenu);
                let submenu = at.left[0].handle_spec();
                if submenu == 0 {
                    lemma_fill_asks(menu, rest, opened.refuse());
                } else {
                    lemma_fill_asks(submenu, inner, opened);
                    lemma_fill_asks(
                        menu,
                        rest,
                        fill(submenu, inner, opened).ask(submenu_call(menu, submenu, label)),
                    );
                }
            },
        }
    }
}

/// More replies change nothing for a menu that is filled.
pub(crate) proof fn lemma_fill_more(
    menu: usize,
    items: Seq<ItemView>,
    at: Progress,
    more: Seq<Reply>,
)
    requires
        fill(menu, items, at).pending is None,
    ensures
        fill(menu, items, Progress { left: at.left + more, ..at }) == (Progress {
            left: fill(menu, items, at).left + more,
            ..fill(menu, items, at)
        }),
    decreases items,
{
    let longer = Progress { left: at.left + more, ..at };
    if at.pending is None && items.len() > 0 {
        let rest = items.drop_first();
        if at.left.len() > 0 {
            assert(longer.left.drop_first() =~= at.left.drop_first() + more);
            assert(longer.left[0] == at.left[0]);
        }
        match items[0] {
            ItemView::Separator => {
                lemma_fill_waits(menu, rest, at.ask(separator_call(menu)));
                lemma_fill_more(menu, rest, at.ask(separator_call(menu)), more);
            },
            ItemView::Command(command) => {
                let call = command_call(menu, at.next_id, command);
                lemma_fill_waits(menu, rest, at.list(command.id).ask(call));
                lemma_fill_more(menu, rest, at.list(command.id).ask(call), more);
            },
            ItemView::Submenu { label, items: inner } => {
                let opened = at.ask(CallView::CreateMenu);
                let submenu = at.left[0].handle_spec();
                if submenu == 0 {
                    lemma_fill_more(menu, rest, opened.refuse(), more);
                } else {
                    let filled = fill(submenu, inner, opened);
                    let call = submenu_call(menu, submenu, label);
                    lemma_fill_waits(menu, rest, filled.ask(call));
                    lemma_fill_more(submenu, inner, opened, more);
                    if filled.left.len() > 0 {
                        assert((filled.left + more).drop_first() =~= filled.left.drop_first()
                            + more);
                    }
                    lemma_fill_more(menu, rest, filled.ask(call), more);
                }
            },
        }
    }
}

/// Nothing more is put into a menu once a call has no reply.
proof fn lemma_fill_waits(menu: usize, items: Seq<ItemView>, at: Progress)
    ensures
        at.pending is Some ==> fill(menu, items, at) == at,
{
}

/// Without replies no call is made.
proof fn lemma_fill_dry(menu: usize, items: Seq<ItemView>, at: Progress)
    requires
        at.left.len() == 0,
    ensures
        fill(menu, items, at).made == at.made,
        fill(menu, items, at).left.len() == 0,
        recorded(at, fill(menu, items, at), at.map) == fill(menu, items, at).map,
{
    if at.pending is None && items.len() > 0 {
        let rest = items.drop_first();
        match items[0] {
            ItemView::Separator => {
                lemma_fill_waits(menu, rest, at.ask(separator_call(menu)));
            },
            ItemView::Command(command) => {
                let call = command_call(menu, at.next_id, command);
                lemma_fill_waits(menu, rest, at.list(command.id).ask(call));
            },
            ItemView::Submenu { label, items: inner } => {},
        }
    }
}

/// One more reply answers the call that had none, and no other.
proof fn lemma_fill_step(menu: usize, items: Seq<ItemView>, at: Progress, reply: Reply)
    requires
        at.pending is None,
        fill(menu, items, at).pending is Some,
    ensures
        fill(menu, items, Progress { left: at.left.push(reply), ..at }).made == fill(
            menu,
            items,
            at,
        ).made.push((fill(menu, items, at).pending->0, reply)),
        fill(menu, items, Progress { left: at.left.push(reply), ..at }).left.len() == 0,
        recorded(
            fill(menu, items, at),
            fill(menu, items, Progress { left: at.left.push(reply), ..at }),
            fill(menu, items, at).map,
        ) == fill(menu, items, Progress { left: at.left.push(reply), ..at }).map,
    decreases items,
{
    let longer = Progress { left: at.left.push(reply), ..at };
    let rest = items.drop_first();
    if at.left.len() > 0 {
        assert(longer.left.drop_first() =~= at.left.drop_first().push(reply));
        assert(longer.left[0] == at.left[0]);
    } else {
        assert(longer.left.drop_first() =~= Seq::<Reply>::empty());
    }
    match items[0] {
        ItemView::Separator => {
            let call = separator_call(menu);
            if at.left.len() > 0 {
                lemma_fill_step(menu, rest, at.ask(call), reply);
            } else {
                lemma_fill_waits(menu, rest, at.ask(call));
                lemma_fill_dry(menu, rest, longer.ask(call));
            }
        },
        ItemView::Command(command) => {
            let call = command_call(menu, at.next_id, command);
            if at.left.len() > 0 {
                lemma_fill_step(menu, rest, at.list(command.id).ask(call), reply);
            } else {
                lemma_fill_waits(menu, rest, at.list(command.id).ask(call));
                lemma_fill_dry(menu, rest, longer.list(command.id).ask(call));
            }
        },
        ItemView::Submenu { label, items: inner } => {
            let opened = at.ask(CallView::CreateMenu);
            let reopened = longer.ask(CallView::CreateMenu);
            let submenu = longer.left[0].handle_spec();
            let call = submenu_call(menu, submenu, label);
            if submenu == 0 {
                if at.left.len() > 0 {
                    lemma_fill_step(menu, rest, opened.refuse(), reply);
                } else {
                    lemma_fill_dry(menu, rest, reopened.refuse());
                }
            } else {
                let refilled = fill(submenu, inner, reopened);
                if at.left.len() > 0 {
                    let filled = fill(submenu, inner, opened);
                    if filled.pending is Some {
                        lemma_fill_waits(menu, rest, filled.ask(call));
                        lemma_fill_step(submenu, inner, opened, reply);
                        lemma_fill_dry(menu, rest, refilled.ask(call));
                    } else {
                        assert(opened.left + seq![reply] =~= opened.left.push(reply));
                        lemma_fill_more(submenu, inner, opened, seq![reply]);
                        assert(filled.left + seq![reply] =~= filled.left.push(reply));
                        if filled.left.len() > 0 {
                            assert(refilled.left.drop_first() =~= filled.left.drop_first().push(
                                reply,
                            ));
                            lemma_fill_step(menu, rest, filled.ask(call), reply);
                        } else {
                            lemma_fill_waits(menu, rest, filled.ask(call));
                            assert(refilled.left.drop_first() =~= Seq::<Reply>::empty());
                            lemma_fill_dry(menu, rest, refilled.ask(call));
                        }
                    }
                } else {
                    lemma_fill_dry(submenu, inner, reopened);
                    lemma_fill_dry(menu, rest, refilled.ask(call));
                }
            }
        },
    }
}

/// The calls that were made in filling a menu are those that stood at hand, each
/// with the reply that it got.
pub proof fn law_calls_made_in_turn(run: MenuRun)
    requires
        crate::ledger::answered(run.calls(), run.replies),
    ensures
        run.progress().made == crate::ledger::trace(run.calls(), run.replies),
        run.progress().left.len() == 0,
    decreases run.replies.len(),
{
    let calls = run.calls();
    if run.replies.len() == 0 {
        lemma_fill_dry(run.menu, run.items, beginning(run.replies));
        assert(run.progress().made =~= crate::ledger::trace(calls, run.replies));
    } else {
        let shorter = MenuRun { replies: run.replies.drop_last(), ..run };
        let last = run.replies.last();
        assert(run.replies =~= shorter.replies.push(last));
        assert(run.replies.take(run.replies.len() - 1) =~= shorter.replies);
        assert(calls(shorter.replies) is Some);
        assert forall|i: int| 0 <= i < shorter.replies.len() implies shorter.calls()(
            #[trigger] shorter.replies.take(i),
        ) is Some by {
            assert(run.replies.take(i) =~= shorter.replies.take(i));
            assert(calls(run.replies.take(i)) is Some);
        }
        law_calls_made_in_turn(shorter);
        lemma_fill_step(run.menu, run.items, beginning(shorter.replies), last);
        let made = crate::ledger::trace(calls, run.replies);
        let before = crate::ledger::trace(shorter.calls(), shorter.replies);
        assert forall|i: int| 0 <= i < before.len() implies before[i] == made[i] by {
            assert(run.replies.take(i) =~= shorter.replies.take(i));
        }
        assert(made =~= before.push((calls(shorter.replies)->0, last)));
    }
}

/// A map that starts empty and records every step of the filling of a menu holds
/// the commands by their numbers.
pub proof fn law_numbers_recorded(run: MenuRun, reply: Reply)
    ensures
        run.replies.len() == 0 ==> recorded(
            beginning(Seq::empty()),
            run.progress(),
            Map::empty(),
        ) == run.progress().map,
        recorded(run.progress(), run.after(reply).progress(), run.progress().map) == run.after(
            reply,
        ).progress().map,
{
    if run.replies.len() == 0 {
        assert(run.replies =~= Seq::<Reply>::empty());
        lemma_fill_dry(run.menu, run.items, beginning(run.replies));
    }
    if run.progress().pending is Some {
        lemma_fill_step(run.menu, run.items, beginning(run.replies), reply);
    }
}

/// Commands are numbered from one on, in the order in which they are put into
/// their menus.
pub proof fn law_commands_numbered_in_order(run: MenuRun)
    ensures
        run.progress().map == numbering(run.progress().listed),
{
    assert(numbering(Seq::<CommandId>::empty()) =~= Map::<u32, CommandId>::empty());
    lemma_fill_numbered(run.menu, run.items, beginning(run.replies));
}

/// The entry of every command that was put into a menu carries the number under
/// which the command is found.
pub proof fn law_entries_carry_their_numbers(run: MenuRun)
    requires
        run.progress().pending is None,
    ensures
        numbers_shown(run.progress().made).len() == run.progress().listed.len(),
        forall|i: int|
            0 <= i < run.progress().listed.len() ==> #[trigger] numbers_shown(
                run.progress().made,
            )[i] == number_of(i),
        forall|i: int|
            0 <= i < run.progress().listed.len() && i < u32::MAX - 1
                ==> run.progress().map.contains_pair(
                number_of(i) as u32,
                #[trigger] run.progress().listed[i],
            ),
{
    assert(numbering(Seq::<CommandId>::empty()) =~= Map::<u32, CommandId>::empty());
    lemma_fill_shown(run.menu, run.items, beginning(run.replies));
    law_commands_numbered_in_order(run);
}

/// A menu of which the system made every submenu ends up with all its commands,
/// in the order in which they are read.
pub proof fn law_all_commands_listed(run: MenuRun)
    requires
        run.progress().pending is None,
        run.progress().refused == 0,
    ensures
        run.progress().listed == commands_of(run.items),
{
    lemma_fill_listed(run.menu, run.items, beginning(run.replies));
    assert(Seq::<CommandId>::empty() + commands_of(run.items) =~= commands_of(run.items));
}

/// The number of an entry leads back to its command, and to no other, as long
/// as there are numbers enough.
pub proof fn law_number_leads_to_command(run: MenuRun, index: int)
    requires
        run.progress().pending is None,
        run.progress().refused == 0,
        commands_of(run.items).len() <= u32::MAX,
        0 <= index < commands_of(run.items).len(),
    ensures
        run.progress().map.contains_pair((index + 1) as u32, commands_of(run.items)[index]),
{
    law_commands_numbered_in_order(run);
    law_all_commands_listed(run);
}

/// A menu gets an entry for each of its items, with the text of that item and in
/// the same order, as long as the system makes every submenu anew. So does every
/// submenu, which is filled in the same way.
pub proof fn law_entries_in_order(menu: usize, items: Seq<ItemView>, at: Progress)
    requires
        fill(menu, items, at).pending is None,
        fill(menu, items, at).refused == at.refused,
        made_others(fill(menu, items, at).made, at.made.len(), menu),
    ensures
        texts_in(fill(menu, items, at).made, menu) == texts_in(at.made, menu) + items.map_values(
            |item: ItemView| entry_text(item),
        ),
    decreases items,
{
    let text = |item: ItemView| entry_text(item);
    let done = fill(menu, items, at);
    if items.len() == 0 {
        assert(texts_in(at.made, menu) + items.map_values(text) =~= texts_in(at.made, menu));
    } else {
        let rest = items.drop_first();
        assert(items.map_values(text) =~= seq![entry_text(items[0])] + rest.map_values(text));
        let next = match items[0] {
            ItemView::Separator => at.ask(separator_call(menu)),
            ItemView::Command(command) => at.list(command.id).ask(
                command_call(menu, at.next_id, command),
            ),
            ItemView::Submenu { label, items: inner } => {
                let submenu = at.left[0].handle_spec();
                fill(submenu, inner, at.ask(CallView::CreateMenu)).ask(
                    submenu_call(menu, submenu, label),
                )
            },
        };
        match items[0] {
            ItemView::Separator => {
                lemma_texts_push(at.made, separator_call(menu), at.left[0], menu);
            },
            ItemView::Command(command) => {
                lemma_texts_push(
                    at.made,
                    command_call(menu, at.next_id, command),
                    at.left[0],
                    menu,
                );
            },
            ItemView::Submenu { label, items: inner } => {
                let opened = at.ask(CallView::CreateMenu);
                let submenu = at.left[0].handle_spec();
                if submenu == 0 {
                    lemma_fill_grows(menu, rest, opened.refuse());
                    assert(false);
                }
                let filled = fill(submenu, inner, opened);
                lemma_texts_push(at.made, CallView::CreateMenu, at.left[0], menu);
                lemma_fill_grows(submenu, inner, opened);
                lemma_fill_grows(menu, rest, next);
                assert(done.made[at.made.len() as int] == opened.made.last());
                assert forall|i: int|
                    opened.made.len() <= i < filled.made.len() && (
                    #[trigger] filled.made[i]).0 is CreateMenu implies filled.made[i].1.handle_spec()
                    != menu by {
                    assert(filled.made[i] == done.made[i]);
                }
                lemma_fill_elsewhere(submenu, inner, opened, menu);
                lemma_texts_push(
                    filled.made,
                    submenu_call(menu, submenu, label),
                    filled.left[0],
                    menu,
                );
            },
        }
        lemma_fill_grows(menu, rest, next);
        law_entries_in_order(menu, rest, next);
        assert(texts_in(next.made, menu) == texts_in(at.made, menu).push(entry_text(items[0])));
        assert(texts_in(next.made, menu) + rest.map_values(text) =~= texts_in(at.made, menu)
            + items.map_values(text));
    }
}

/// Filling a menu ends, after no more calls than its entries ask for.
pub proof fn law_filling_ends(run: MenuRun)
    requires
        run.replies.len() >= calls_of(run.items),
    ensures
        run.progress().pending is None,
        run.progress().left.len() >= run.replies.len() - calls_of(run.items),
{
    lemma_fill_ends(run.menu, run.items, beginning(run.replies));
}

/// Once a menu is filled, every submenu that the system made has been put into
/// the menu that it belongs to, once, or the system would not put it in.
pub proof fn law_submenus_put_in_once(run: MenuRun, resource: Resource)
    requires
        run.progress().pending is None,
    ensures
        crate::ledger::balance(run.progress().made, resource) == crate::ledger::strays(
            run.progress().made,
            resource,
        ),
{
    lemma_fill_held(run.menu, run.items, beginning(run.replies), resource);
}

/// A command entry is grey exactly where the command is not enabled, and has a
/// mark exactly where it is checked. The flags of commands, separators and
/// submenus differ.
pub proof fn law_flags_tell_entries_apart(enabled: bool, checked: bool)
    ensures
        command_flags_spec(enabled, checked) & MF_GRAYED != 0 <==> !enabled,
        command_flags_spec(enabled, checked) & MF_CHECKED != 0 <==> checked,
        command_flags_spec(enabled, checked) != MF_SEPARATOR,
        command_flags_spec(enabled, checked) != MF_POPUP | MF_STRING,
        MF_SEPARATOR != MF_POPUP | MF_STRING,
{
    assert(0x10u32 | 0 == 0x10) by (bit_vector);
    assert(0u32 | 1 == 1 && 1u32 | 8 == 9 && 0u32 | 8 == 8) by (bit_vector);
    assert(0u32 & 1 == 0 && 1u32 & 1 == 1 && 8u32 & 1 == 0 && 9u32 & 1 == 1) by (bit_vector);
    assert(0u32 & 8 == 0 && 1u32 & 8 == 0 && 8u32 & 8 == 8 && 9u32 & 8 == 8) by (bit_vector);
}

/// The entries that some calls put into a menu, in order.
pub open spec fn entries_in(calls: Seq<(CallView, Reply)>, menu: usize) -> Seq<CallView>
    decreases calls.len(),
{
    if calls.len() == 0 {
        Seq::empty()
    } else {
        let before = entries_in(calls.drop_last(), menu);
        let last = calls.last().0;
        if last is AppendMenu && last->AppendMenu_menu == menu {
            before.push(last)
        } else {
            before
        }
    }
}

/// Whether some calls made a menu.
pub open spec fn menu_made(calls: Seq<(CallView, Reply)>, menu: usize) -> bool {
    exists|i: int|
        0 <= i < calls.len() && (#[trigger] calls[i]).0 is CreateMenu && calls[i].1
            == Reply::Handle(menu)
}

/// Whether the menus that some calls made are all different, and none is a given one.
pub open spec fn menus_differ(calls: Seq<(CallView, Reply)>, menu: usize) -> bool {
    &&& forall|i: int|
        0 <= i < calls.len() && (#[trigger] calls[i]).0 is CreateMenu ==> calls[i].1.handle_spec()
            != menu
    &&& forall|i: int, j: int|
        0 <= i < j < calls.len() && (#[trigger] calls[i]).0 is CreateMenu && (
        #[trigger] calls[j]).0 is CreateMenu ==> calls[i].1.handle_spec()
            != calls[j].1.handle_spec()
}

/// Whether an entry looks like an item of a menu. A separator has no text. A command
/// has its label; it is grey where it is not enabled and has a mark where it is
/// checked; and it carries a number by which the command is found. A submenu has its
/// label.
pub open spec fn looks_like(entry: CallView, item: ItemView, map: Map<u32, CommandId>) -> bool {
    &&& entry matches CallView::AppendMenu { flags, item: number, text, .. } && match item {
        ItemView::Separator => flags == 0x800 && number == 0 && text is None,
        ItemView::Command(command) => {
            &&& flags == (if command.enabled {
                0int
            } else {
                1
            }) + (if command.checked {
                8int
            } else {
                0
            })
            &&& text == Some(crate::wide::wide(command.label))
            &&& 0 < number <= u32::MAX
            &&& map.contains_pair(number as u32, command.id)
        },
        ItemView::Submenu { label, .. } => flags == 0x10 && text == Some(
            crate::wide::wide(label),
        ),
    }
}

/// Whether a menu that some calls filled shows its items, all of them, in order, and
/// nothing else; and whether the menu behind each of its submenus, which is one of
/// those that were made, shows the items of the submenu in the same way.
pub open spec fn shows(
    calls: Seq<(CallView, Reply)>,
    map: Map<u32, CommandId>,
    menu: usize,
    items: Seq<ItemView>,
) -> bool
    decreases items,
{
    let entries = entries_in(calls, menu);
    &&& entries.len() == items.len()
    &&& forall|i: int|
        0 <= i < items.len() ==> looks_like(entries[i], #[trigger] items[i], map) && match items[i] {
            ItemView::Submenu { label, items: inner } => {
                let submenu = entries[i]->AppendMenu_item;
                menu_made(calls, submenu) && shows(calls, map, submenu, inner)
            },
            _ => true,
        }
}

/// Whether some calls put entries only into a given menu and into those they made.
spec fn keeps_to(calls: Seq<(CallView, Reply)>, menu: usize) -> bool {
    forall|i: int|
        0 <= i < calls.len() && (#[trigger] calls[i]).0 is AppendMenu ==> {
            let into = calls[i].0->AppendMenu_menu;
            into == menu || menu_made(calls, into)
        }
}

proof fn lemma_entries_add(
    first: Seq<(CallView, Reply)>,
    second: Seq<(CallView, Reply)>,
    menu: usize,
)
    ensures
        entries_in(first + second, menu) == entries_in(first, menu) + entries_in(second, menu),
    decreases second.len(),
{
    if second.len() == 0 {
        assert(first + second =~= first);
        assert(entries_in(first, menu) + entries_in(second, menu) =~= entries_in(first, menu));
    } else {
        assert((first + second).drop_last() =~= first + second.drop_last());
        lemma_entries_add(first, second.drop_last(), menu);
        assert(entries_in(first + second, menu) =~= entries_in(first, menu) + entries_in(
            second,
            menu,
        ));
    }
}

/// Calls that put entries elsewhere put none here.
proof fn lemma_no_entries(calls: Seq<(CallView, Reply)>, menu: usize)
    requires
        forall|i: int|
            0 <= i < calls.len() && (#[trigger] calls[i]).0 is AppendMenu
                ==> calls[i].0->AppendMenu_menu != menu,
    ensures
        entries_in(calls, menu).len() == 0,
    decreases calls.len(),
{
    if calls.len() > 0 {
        assert forall|i: int|
            0 <= i < calls.drop_last().len() && (#[trigger] calls.drop_last()[i]).0 is AppendMenu
            implies calls.drop_last()[i].0->AppendMenu_menu != menu by {
            assert(calls[i].0 is AppendMenu);
        }
        lemma_no_entries(calls.drop_last(), menu);
        assert(calls[calls.len() - 1] == calls.last());
    }
}

/// A menu shows its items still where more calls were made that put nothing into it
/// or into its submenus.
proof fn lemma_shows_more(
    some: Seq<(CallView, Reply)>,
    more: Seq<(CallView, Reply)>,
    map: Map<u32, CommandId>,
    menu: usize,
    items: Seq<ItemView>,
)
    requires
        shows(some, map, menu, items),
        entries_in(more, menu) == entries_in(some, menu),
        forall|other: usize| #[trigger]
            menu_made(some, other) ==> entries_in(more, other) == entries_in(some, other)
                && menu_made(more, other),
    ensures
        shows(more, map, menu, items),
    decreases items,
{
    let entries = entries_in(more, menu);
    assert forall|i: int| 0 <= i < items.len() implies looks_like(
        entries[i],
        #[trigger] items[i],
        map,
    ) && match items[i] {
        ItemView::Submenu { label, items: inner } => {
            let submenu = entries[i]->AppendMenu_item;
            menu_made(more, submenu) && shows(more, map, submenu, inner)
        },
        _ => true,
    } by {
        if let ItemView::Submenu { label, items: inner } = items[i] {
            let submenu = entries[i]->AppendMenu_item;
            assert(menu_made(some, submenu));
            lemma_shows_more(some, more, map, submenu, inner);
        }
    }
}

/// The calls that the filling of a menu adds.
spec fn added(before: Progress, after: Progress) -> Seq<(CallView, Reply)> {
    after.made.skip(before.made.len() as int)
}

/// Commands are only ever added to those listed.
proof fn lemma_fill_lists(menu: usize, items: Seq<ItemView>, at: Progress)
    ensures
        at.listed.len() <= fill(menu, items, at).listed.len(),
        forall|i: int|
            0 <= i < at.listed.len() ==> at.listed[i] == #[trigger] fill(menu, items, at).listed[i],
    decreases items,
{
    if at.pending is None && items.len() > 0 {
        let rest = items.drop_first();
        match items[0] {
            ItemView::Separator => {
                lemma_fill_lists(menu, rest, at.ask(separator_call(menu)));
            },
            ItemView::Command(command) => {
                lemma_fill_lists(
                    menu,
                    rest,
                    at.list(command.id).ask(command_call(menu, at.next_id, command)),
                );
            },
            ItemView::Submenu { label, items: inner } => {
                let opened = at.ask(CallView::CreateMenu);
                let submenu = at.left[0].handle_spec();
                if submenu == 0 {
                    lemma_fill_lists(menu, rest, opened.refuse());
                } else {
                    lemma_fill_lists(submenu, inner, opened);
                    lemma_fill_lists(
                        menu,
                        rest,
                        fill(submenu, inner, opened).ask(submenu_call(menu, submenu, label)),
                    );
                }
            },
        }
    }
}

/// Parts of a row of calls whose menus differ.
proof fn lemma_parts_differ(
    first: Seq<(CallView, Reply)>,
    second: Seq<(CallView, Reply)>,
    menu: usize,
)
    requires
        menus_differ(first + second, menu),
    ensures
        menus_differ(first, menu),
        menus_differ(second, menu),
        forall|other: usize|
            menu_made(first, other) && other != 0 ==> !#[trigger] menu_made(second, other),
        forall|other: usize| #[trigger] menu_made(first, other) ==> menu_made(first + second, other),
        forall|other: usize| #[trigger]
            menu_made(second, other) ==> menu_made(first + second, other),
        forall|other: usize| #[trigger] menu_made(first, other) && other != 0 ==> other != menu,
        forall|other: usize| #[trigger] menu_made(second, other) && other != 0 ==> other != menu,
{
    let both = first + second;
    assert(forall|i: int| 0 <= i < first.len() ==> both[i] == #[trigger] first[i]);
    assert(forall|i: int| 0 <= i < second.len() ==> both[i + first.len()] == #[trigger] second[i]);
    assert forall|i: int| 0 <= i < first.len() && (#[trigger] first[i]).0 is CreateMenu implies
        first[i].1.handle_spec() != menu by {
        assert(both[i].0 is CreateMenu);
    }
    assert forall|i: int| 0 <= i < second.len() && (#[trigger] second[i]).0 is CreateMenu implies
        second[i].1.handle_spec() != menu by {
        assert(both[i + first.len()].0 is CreateMenu);
    }
    assert forall|i: int, j: int|
        0 <= i < j < first.len() && (#[trigger] first[i]).0 is CreateMenu && (#[trigger] first[j]).0
        is CreateMenu implies first[i].1.handle_spec() != first[j].1.handle_spec() by {
        assert(both[i].0 is CreateMenu && both[j].0 is CreateMenu);
    }
    assert forall|i: int, j: int|
        0 <= i < j < second.len() && (#[trigger] second[i]).0 is CreateMenu && (
        #[trigger] second[j]).0 is CreateMenu implies second[i].1.handle_spec()
        != second[j].1.handle_spec() by {
        assert(both[i + first.len()].0 is CreateMenu && both[j + first.len()].0 is CreateMenu);
    }
    assert forall|other: usize| menu_made(first, other) && other != 0 implies !#[trigger] menu_made(
        second,
        other,
    ) by {
        let i = choose|i: int|
            0 <= i < first.len() && (#[trigger] first[i]).0 is CreateMenu && first[i].1
                == Reply::Handle(other);
        if menu_made(second, other) {
            let j = choose|j: int|
                0 <= j < second.len() && (#[trigger] second[j]).0 is CreateMenu && second[j].1
                    == Reply::Handle(other);
            assert(both[i].0 is CreateMenu && both[j + first.len()].0 is CreateMenu);
        }
    }
    assert forall|other: usize| #[trigger] menu_made(first, other) implies menu_made(both, other) by {
        let i = choose|i: int|
            0 <= i < first.len() && (#[trigger] first[i]).0 is CreateMenu && first[i].1
                == Reply::Handle(other);
        assert(both[i].0 is CreateMenu);
    }
    assert forall|other: usize| #[trigger] menu_made(second, other) implies menu_made(
        both,
        other,
    ) by {
        let j = choose|j: int|
            0 <= j < second.len() && (#[trigger] second[j]).0 is CreateMenu && second[j].1
                == Reply::Handle(other);
        assert(both[j + first.len()].0 is CreateMenu);
    }
}

/// Calls that keep to a menu, and to menus that are not a given one, put nothing into
/// that one.
proof fn lemma_keeps_out(calls: Seq<(CallView, Reply)>, menu: usize, other: usize)
    requires
        keeps_to(calls, menu),
        other != menu,
        !menu_made(calls, other),
    ensures
        entries_in(calls, other).len() == 0,
{
    assert forall|i: int| 0 <= i < calls.len() && (#[trigger] calls[i]).0 is AppendMenu implies
        calls[i].0->AppendMenu_menu != other by {}
    lemma_no_entries(calls, other);
}

/// Calls that show the first item of a menu, and then calls that show the others, show
/// them all.
proof fn lemma_shows_both(
    first: Seq<(CallView, Reply)>,
    others: Seq<(CallView, Reply)>,
    map: Map<u32, CommandId>,
    menu: usize,
    items: Seq<ItemView>,
)
    requires
        items.len() > 0,
        menus_differ(first + others, menu),
        !menu_made(first, 0),
        !menu_made(others, 0),
        keeps_to(first, menu),
        keeps_to(others, menu),
        shows(first, map, menu, seq![items[0]]),
        shows(others, map, menu, items.drop_first()),
    ensures
        shows(first + others, map, menu, items),
        keeps_to(first + others, menu),
        !menu_made(first + others, 0),
{
    let both = first + others;
    let rest = items.drop_first();
    lemma_parts_differ(first, others, menu);
    lemma_entries_add(first, others, menu);
    let entries = entries_in(both, menu);
    assert(forall|i: int| 0 <= i < first.len() ==> both[i] == #[trigger] first[i]);
    assert(forall|i: int| 0 <= i < others.len() ==> both[i + first.len()] == #[trigger] others[i]);
    assert forall|other: usize| #[trigger] menu_made(first, other) implies entries_in(both, other)
        == entries_in(first, other) by {
        lemma_entries_add(first, others, other);
        lemma_keeps_out(others, menu, other);
        assert(entries_in(both, other) =~= entries_in(first, other));
    }
    assert forall|other: usize| #[trigger] menu_made(others, other) implies entries_in(both, other)
        == entries_in(others, other) by {
        lemma_entries_add(first, others, other);
        if menu_made(first, other) {
            assert(false);
        }
        lemma_keeps_out(first, menu, other);
        assert(entries_in(both, other) =~= entries_in(others, other));
    }
    assert(seq![items[0]][0] == items[0]);
    assert forall|i: int| 0 <= i < items.len() implies looks_like(
        entries[i],
        #[trigger] items[i],
        map,
    ) && match items[i] {
        ItemView::Submenu { label, items: inner } => {
            let submenu = entries[i]->AppendMenu_item;
            menu_made(both, submenu) && shows(both, map, submenu, inner)
        },
        _ => true,
    } by {
        if i == 0 {
            assert(entries[0] == entries_in(first, menu)[0]);
            if let ItemView::Submenu { label, items: inner } = items[0] {
                let submenu = entries[0]->AppendMenu_item;
                assert(menu_made(first, submenu));
                lemma_shows_more(first, both, map, submenu, inner);
            }
        } else {
            assert(entries[i] == entries_in(others, menu)[i - 1]);
            assert(rest[i - 1] == items[i]);
            if let ItemView::Submenu { label, items: inner } = items[i] {
                let submenu = entries[i]->AppendMenu_item;
                assert(menu_made(others, submenu));
                lemma_shows_more(others, both, map, submenu, inner);
            }
        }
    }
    assert forall|i: int| 0 <= i < both.len() && (#[trigger] both[i]).0 is AppendMenu implies {
        let into = both[i].0->AppendMenu_menu;
        into == menu || menu_made(both, into)
    } by {
        if i < first.len() {
            assert(first[i].0 is AppendMenu);
        } else {
            assert(others[i - first.len()].0 is AppendMenu);
        }
    }
    if menu_made(both, 0) {
        let i = choose|i: int|
            0 <= i < both.len() && (#[trigger] both[i]).0 is CreateMenu && both[i].1
                == Reply::Handle(0);
        if i < first.len() {
            assert(first[i].0 is CreateMenu);
        } else {
            assert(others[i - first.len()].0 is CreateMenu);
        }
    }
}

/// One call that puts in an entry which looks like an item shows that item.
proof fn lemma_shows_one(
    call: CallView,
    reply: Reply,
    map: Map<u32, CommandId>,
    menu: usize,
    item: ItemView,
)
    requires
        looks_like(call, item, map),
        call->AppendMenu_menu == menu,
        !(item is Submenu),
    ensures
        shows(seq![(call, reply)], map, menu, seq![item]),
        keeps_to(seq![(call, reply)], menu),
        !menu_made(seq![(call, reply)], 0),
{
    let calls = seq![(call, reply)];
    assert(calls.drop_last() =~= Seq::<(CallView, Reply)>::empty());
    assert(entries_in(calls.drop_last(), menu) =~= Seq::<CallView>::empty());
    assert(entries_in(calls, menu) =~= seq![call]);
}

/// Making a submenu, filling it and putting it in shows it.
proof fn lemma_shows_submenu(
    filling: Seq<(CallView, Reply)>,
    made: Reply,
    put: Reply,
    map: Map<u32, CommandId>,
    menu: usize,
    submenu: usize,
    label: Seq<char>,
    inner: Seq<ItemView>,
)
    requires
        made == Reply::Handle(submenu),
        submenu != 0,
        menus_differ(
            seq![(CallView::CreateMenu, made)] + filling + seq![
                (submenu_call(menu, submenu, label), put),
            ],
            menu,
        ),
        shows(filling, map, submenu, inner),
        keeps_to(filling, submenu),
        !menu_made(filling, 0),
    ensures
        ({
            let calls = seq![(CallView::CreateMenu, made)] + filling + seq![
                (submenu_call(menu, submenu, label), put),
            ];
            &&& shows(calls, map, menu, seq![ItemView::Submenu { label, items: inner }])
            &&& keeps_to(calls, menu)
            &&& !menu_made(calls, 0)
        }),
{
    let start = seq![(CallView::CreateMenu, made)];
    let end = seq![(submenu_call(menu, submenu, label), put)];
    let call = submenu_call(menu, submenu, label);
    let opened = start + filling;
    let calls = opened + end;
    assert(0x10u32 | 0 == 0x10) by (bit_vector);
    lemma_parts_differ(opened, end, menu);
    lemma_parts_differ(start, filling, menu);
    assert(calls[0] == start[0]);
    assert(calls[0].0 is CreateMenu);
    assert(menu_made(calls, submenu));
    assert(start[0].0 is CreateMenu);
    assert(menu_made(start, submenu));
    assert(forall|i: int|
        0 <= i < filling.len() ==> calls[i + 1] == #[trigger] filling[i]);
    assert(calls[calls.len() - 1] == (call, put));
    assert(start.drop_last() =~= Seq::<(CallView, Reply)>::empty());
    assert(end.drop_last() =~= Seq::<(CallView, Reply)>::empty());
    assert forall|other: usize| other != menu implies #[trigger] entries_in(calls, other)
        == entries_in(filling, other) by {
        lemma_entries_add(opened, end, other);
        lemma_entries_add(start, filling, other);
        assert(entries_in(start.drop_last(), other) =~= Seq::<CallView>::empty());
        assert(entries_in(start, other) =~= Seq::<CallView>::empty());
        assert(entries_in(end, other) =~= Seq::<CallView>::empty());
        assert(entries_in(calls, other) =~= entries_in(filling, other));
    }
    lemma_entries_add(opened, end, menu);
    lemma_entries_add(start, filling, menu);
    if menu_made(filling, menu) {
        let i = choose|i: int|
            0 <= i < filling.len() && (#[trigger] filling[i]).0 is CreateMenu && filling[i].1
                == Reply::Handle(menu);
        assert(calls[i + 1].0 is CreateMenu);
    }
    lemma_keeps_out(filling, submenu, menu);
    assert(entries_in(start.drop_last(), menu) =~= Seq::<CallView>::empty());
    assert(entries_in(start, menu) =~= Seq::<CallView>::empty());
    assert(entries_in(end, menu) =~= seq![call]);
    assert(entries_in(calls, menu) =~= seq![call]);
    assert forall|other: usize| #[trigger] menu_made(filling, other) implies entries_in(
        calls,
        other,
    ) == entries_in(filling, other) && menu_made(calls, other) by {
        assert(menu_made(opened, other));
        assert(other != menu);
    }
    lemma_shows_more(filling, calls, map, submenu, inner);
    let items = seq![ItemView::Submenu { label, items: inner }];
    assert(looks_like(call, items[0], map));
    assert(shows(calls, map, menu, items));
    assert forall|i: int| 0 <= i < calls.len() && (#[trigger] calls[i]).0 is AppendMenu implies {
        let into = calls[i].0->AppendMenu_menu;
        into == menu || menu_made(calls, into)
    } by {
        if 0 < i < calls.len() - 1 {
            assert(filling[i - 1].0 is AppendMenu);
            let into = calls[i].0->AppendMenu_menu;
            if into != submenu {
                assert(menu_made(filling, into));
            }
        }
    }
    if menu_made(calls, 0) {
        let i = choose|i: int|
            0 <= i < calls.len() && (#[trigger] calls[i]).0 is CreateMenu && calls[i].1
                == Reply::Handle(0);
        if 0 < i < calls.len() - 1 {
            assert(filling[i - 1].0 is CreateMenu);
        }
    }
}

/// Filling a menu, with no submenu refused, shows its items.
proof fn lemma_tree(menu: usize, items: Seq<ItemView>, at: Progress, all: Seq<CommandId>)
    requires
        at.pending is None,
        fill(menu, items, at).pending is None,
        fill(menu, items, at).refused == at.refused,
        menus_differ(added(at, fill(menu, items, at)), menu),
        numbered(at),
        all.len() < u32::MAX,
        fill(menu, items, at).listed.len() <= all.len(),
        forall|i: int|
            0 <= i < fill(menu, items, at).listed.len() ==> all[i] == #[trigger] fill(
                menu,
                items,
                at,
            ).listed[i],
    ensures
        shows(added(at, fill(menu, items, at)), numbering(all), menu, items),
        keeps_to(added(at, fill(menu, items, at)), menu),
        !menu_made(added(at, fill(menu, items, at)), 0),
    decreases items,
{
    let done = fill(menu, items, at);
    let map = numbering(all);
    if items.len() == 0 {
        assert(added(at, done) =~= Seq::<(CallView, Reply)>::empty());
        assert(entries_in(added(at, done), menu) =~= Seq::<CallView>::empty());
    } else {
        let rest = items.drop_first();
        let next = match items[0] {
            ItemView::Separator => at.ask(separator_call(menu)),
            ItemView::Command(command) => at.list(command.id).ask(
                command_call(menu, at.next_id, command),
            ),
            ItemView::Submenu { label, items: inner } => {
                let submenu = at.left[0].handle_spec();
                fill(submenu, inner, at.ask(CallView::CreateMenu)).ask(
                    submenu_call(menu, submenu, label),
                )
            },
        };
        if let ItemView::Submenu { label, items: inner } = items[0] {
            let opened = at.ask(CallView::CreateMenu);
            if at.left[0].handle_spec() == 0 {
                lemma_fill_grows(menu, rest, opened.refuse());
            }
            lemma_fill_numbered(at.left[0].handle_spec(), inner, opened);
            lemma_fill_grows(at.left[0].handle_spec(), inner, opened);
        }
        if let ItemView::Command(command) = items[0] {
            lemma_list_numbered(at, command.id);
        }
        assert(done == fill(menu, rest, next));
        lemma_fill_waits(menu, rest, next);
        lemma_fill_grows(menu, rest, next);
        lemma_fill_lists(menu, rest, next);
        let first = added(at, next);
        let others = added(next, done);
        assert(added(at, done) =~= first + others);
        lemma_parts_differ(first, others, menu);
        lemma_tree(menu, rest, next, all);
        match items[0] {
            ItemView::Separator => {
                let call = separator_call(menu);
                assert(first =~= seq![(call, at.left[0])]);
                lemma_shows_one(call, at.left[0], map, menu, items[0]);
            },
            ItemView::Command(command) => {
                let call = command_call(menu, at.next_id, command);
                let number = at.listed.len() as int;
                assert(first =~= seq![(call, at.left[0])]);
                assert(next.listed[number] == command.id);
                assert(done.listed[number] == command.id);
                assert(all[number] == command.id);
                assert(map.contains_pair(at.next_id, command.id));
                assert(0u32 | 0 == 0 && 0u32 | 1 == 1 && 0u32 | 8 == 8 && 0u32 | 1 | 8 == 9) by (
                bit_vector);
                lemma_shows_one(call, at.left[0], map, menu, items[0]);
            },
            ItemView::Submenu { label, items: inner } => {
                let opened = at.ask(CallView::CreateMenu);
                let reply = at.left[0];
                let submenu = reply.handle_spec();
                let filled = fill(submenu, inner, opened);
                let filling = added(opened, filled);
                let start = seq![(CallView::CreateMenu, reply)];
                let end = seq![(submenu_call(menu, submenu, label), filled.left[0])];
                assert(first =~= start + filling + end);
                lemma_parts_differ(start + filling, end, menu);
                assert(start[0] == (start + filling)[0]);
                assert forall|i: int|
                    0 <= i < filling.len() && (#[trigger] filling[i]).0 is CreateMenu implies
                    filling[i].1.handle_spec() != submenu by {
                    assert((start + filling)[i + 1] == filling[i]);
                    assert((start + filling)[0].0 is CreateMenu);
                }
                lemma_parts_differ(start, filling, menu);
                lemma_fill_lists(submenu, inner, opened);
                assert forall|i: int| 0 <= i < filled.listed.len() implies all[i]
                    == #[trigger] filled.listed[i] by {
                    assert(next.listed[i] == filled.listed[i]);
                    assert(done.listed[i] == next.listed[i]);
                }
                lemma_tree(submenu, inner, opened, all);
                lemma_shows_submenu(
                    filling,
                    reply,
                    filled.left[0],
                    map,
                    menu,
                    submenu,
                    label,
                    inner,
                );
            },
        }
        lemma_shows_both(first, others, map, menu, items);
    }
}

/// Where the system made every menu that it was asked for, no submenu was refused.
proof fn lemma_none_refused(menu: usize, items: Seq<ItemView>, at: Progress)
    requires
        forall|i: int|
            at.made.len() <= i < fill(menu, items, at).made.len() && (#[trigger] fill(
                menu,
                items,
                at,
            ).made[i]).0 is CreateMenu ==> fill(menu, items, at).made[i].1.handle_spec() != 0,
    ensures
        fill(menu, items, at).refused == at.refused,
    decreases items,
{
    let done = fill(menu, items, at);
    if at.pending is None && items.len() > 0 {
        let rest = items.drop_first();
        match items[0] {
            ItemView::Separator => {
                lemma_none_refused(menu, rest, at.ask(separator_call(menu)));
            },
            ItemView::Command(command) => {
                lemma_none_refused(
                    menu,
                    rest,
                    at.list(command.id).ask(command_call(menu, at.next_id, command)),
                );
            },
            ItemView::Submenu { label, items: inner } => {
                let opened = at.ask(CallView::CreateMenu);
                if opened.pending is None {
                    let submenu = at.left[0].handle_spec();
                    let here = at.made.len() as int;
                    assert(opened.made[here] == (CallView::CreateMenu, at.left[0]));
                    if submenu == 0 {
                        lemma_fill_grows(menu, rest, opened.refuse());
                        assert(done.made[here] == opened.made[here]);
                    } else {
                        let filled = fill(submenu, inner, opened);
                        let next = filled.ask(submenu_call(menu, submenu, label));
                        lemma_fill_grows(submenu, inner, opened);
                        lemma_fill_grows(menu, rest, next);
                        assert forall|i: int|
                            opened.made.len() <= i < filled.made.len() && (
                            #[trigger] filled.made[i]).0 is CreateMenu implies
                            filled.made[i].1.handle_spec() != 0 by {
                            assert(next.made[i] == filled.made[i]);
                            assert(done.made[i] == next.made[i]);
                        }
                        lemma_none_refused(submenu, inner, opened);
                        lemma_none_refused(menu, rest, next);
                    }
                }
            },
        }
    }
}

/// A menu shows its model: once it is filled, its entries are its items, in order, and
/// so are those of each submenu, behind the entry that opens it. A separator is a line.
/// A command is its label, grey exactly where it is not enabled, with a mark exactly
/// where it is checked, and under a number that leads back to the command. This holds
/// where the system made each submenu, and made it anew, and where there are numbers
/// enough for the commands.
pub proof fn law_menu_shows_its_model(run: MenuRun)
    requires
        run.progress().pending is None,
        forall|i: int|
            0 <= i < run.progress().made.len() && (#[trigger] run.progress().made[i]).0
                is CreateMenu ==> run.progress().made[i].1.handle_spec() != 0,
        menus_differ(run.progress().made, run.menu),
        commands_of(run.items).len() < u32::MAX,
    ensures
        shows(run.progress().made, run.progress().map, run.menu, run.items),
        crate::ledger::answered(run.calls(), run.replies) ==> shows(
            crate::ledger::trace(run.calls(), run.replies),
            run.progress().map,
            run.menu,
            run.items,
        ),
{
    let start = beginning(run.replies);
    let done = run.progress();
    lemma_none_refused(run.menu, run.items, start);
    law_all_commands_listed(run);
    assert(start.map =~= numbering(start.listed));
    assert(added(start, done) =~= done.made);
    lemma_fill_numbered(run.menu, run.items, start);
    lemma_tree(run.menu, run.items, start, done.listed);
    if crate::ledger::answered(run.calls(), run.replies) {
        law_calls_made_in_turn(run);
    }
}

/// To fill a menu with some items and then with others is to fill it with them all.
pub proof fn law_fillings_join(
    menu: usize,
    items: Seq<ItemView>,
    others: Seq<ItemView>,
    at: Progress,
)
    ensures
        fill(menu, items + others, at) == fill(menu, others, fill(menu, items, at)),
    decreases items,
{
    let all = items + others;
    if items.len() == 0 {
        assert(all =~= others);
    } else if at.pending is None {
        let rest = items.drop_first();
        assert(all.drop_first() =~= rest + others);
        assert(all[0] == items[0]);
        match items[0] {
            ItemView::Separator => {
                law_fillings_join(menu, rest, others, at.ask(separator_call(menu)));
            },
            ItemView::Command(command) => {
                law_fillings_join(
                    menu,
                    rest,
                    others,
                    at.list(command.id).ask(command_call(menu, at.next_id, command)),
                );
            },
            ItemView::Submenu { label, items: inner } => {
                let opened = at.ask(CallView::CreateMenu);
                let submenu = at.left[0].handle_spec();
                if opened.pending is Some {
                } else if submenu == 0 {
                    law_fillings_join(menu, rest, others, opened.refuse());
                } else {
                    law_fillings_join(
                        menu,
                        rest,
                        others,
                        fill(submenu, inner, opened).ask(submenu_call(menu, submenu, label)),
                    );
                }
            },
        }
    }
}

/// A separator takes one call, which puts a line without text or number into the menu.
pub proof fn law_separator_put_in(menu: usize, at: Progress)
    requires
        at.pending is None,
    ensures
        ({
            let done = fill(menu, seq![ItemView::Separator], at);
            let call = CallView::AppendMenu { menu, flags: 0x800, item: 0, text: None };
            &&& done.map == at.map && done.next_id == at.next_id
            &&& done.listed == at.listed && done.refused == at.refused
            &&& at.left.len() == 0 ==> done.pending == Some(call) && done.made == at.made
                && done.left == at.left
            &&& at.left.len() > 0 ==> done.pending is None && done.left == at.left.drop_first()
                && done.made == at.made.push((call, at.left[0]))
        }),
{
    let items = seq![ItemView::Separator];
    assert(items.drop_first() =~= Seq::<ItemView>::empty());
    assert(items[0] is Separator);
    assert(fill(menu, Seq::empty(), at.ask(separator_call(menu))) == at.ask(separator_call(menu)));
}

/// A command takes one call, which puts its label into the menu: grey exactly where the
/// command is not enabled, with a mark exactly where it is checked, and under the next
/// number. From then on the command is found by that number, and the others by theirs.
pub proof fn law_command_put_in(menu: usize, command: CommandView, at: Progress)
    requires
        at.pending is None,
    ensures
        ({
            let done = fill(menu, seq![ItemView::Command(command)], at);
            let call = if at.left.len() == 0 {
                done.pending->0
            } else {
                done.made.last().0
            };
            &&& (call matches CallView::AppendMenu { menu: into, flags, item, text } && {
                &&& into == menu
                &&& flags & 1 != 0 <==> !command.enabled
                &&& flags & 8 != 0 <==> command.checked
                &&& flags == 0 || flags == 1 || flags == 8 || flags == 9
                &&& item == at.next_id
                &&& text == Some(crate::wide::wide(command.label))
            })
            &&& done.map == at.map.insert(at.next_id, command.id)
            &&& done.next_id == (if at.next_id < u32::MAX {
                at.next_id + 1
            } else {
                at.next_id as int
            })
            &&& done.listed == at.listed.push(command.id) && done.refused == at.refused
            &&& at.left.len() == 0 ==> done.pending == Some(call) && done.made == at.made
                && done.left == at.left
            &&& at.left.len() > 0 ==> done.pending is None && done.left == at.left.drop_first()
                && done.made == at.made.push((call, at.left[0]))
        }),
{
    let items = seq![ItemView::Command(command)];
    let call = command_call(menu, at.next_id, command);
    let next = at.list(command.id).ask(call);
    assert(items.drop_first() =~= Seq::<ItemView>::empty());
    assert(items[0] == ItemView::Command(command));
    assert(fill(menu, Seq::empty(), next) == next);
    assert(0u32 | 1 == 1 && 1u32 | 8 == 9 && 0u32 | 8 == 8) by (bit_vector);
    assert(0u32 & 1 == 0 && 1u32 & 1 == 1 && 8u32 & 1 == 0 && 9u32 & 1 == 1) by (bit_vector);
    assert(0u32 & 8 == 0 && 1u32 & 8 == 0 && 8u32 & 8 == 8 && 9u32 & 8 == 8) by (bit_vector);
    if at.left.len() > 0 {
        assert(next.made.last() == (call, at.left[0]));
    }
}

/// A submenu is first made. One that the system would not make is left out, with all
/// that is in it. Another is filled as a menu of its own, and then put into the menu
/// under its label.
pub proof fn law_submenu_put_in(
    menu: usize,
    label: Seq<char>,
    inner: Seq<ItemView>,
    at: Progress,
)
    requires
        at.pending is None,
    ensures
        ({
            let done = fill(menu, seq![ItemView::Submenu { label, items: inner }], at);
            let made = Progress {
                left: at.left.drop_first(),
                made: at.made.push((CallView::CreateMenu, at.left[0])),
                ..at
            };
            let submenu = at.left[0].handle_spec();
            let filled = fill(submenu, inner, made);
            let call = CallView::AppendMenu {
                menu,
                flags: 0x10,
                item: submenu,
                text: Some(crate::wide::wide(label)),
            };
            &&& at.left.len() == 0 ==> done == (Progress {
                pending: Some(CallView::CreateMenu),
                ..at
            })
            &&& at.left.len() > 0 && submenu == 0 ==> done == (Progress {
                refused: at.refused + 1,
                ..made
            })
            &&& at.left.len() > 0 && submenu != 0 && filled.pending is Some ==> done == filled
            &&& at.left.len() > 0 && submenu != 0 && filled.pending is None && filled.left.len()
                == 0 ==> done == (Progress { pending: Some(call), ..filled })
            &&& at.left.len() > 0 && submenu != 0 && filled.pending is None && filled.left.len() > 0
                ==> done == (Progress {
                left: filled.left.drop_first(),
                made: filled.made.push((call, filled.left[0])),
                ..filled
            })
        }),
{
    let items = seq![ItemView::Submenu { label, items: inner }];
    assert(items.drop_first() =~= Seq::<ItemView>::empty());
    assert(items[0] == (ItemView::Submenu { label, items: inner }));
    assert(0x10u32 | 0 == 0x10) by (bit_vector);
    let opened = at.ask(CallView::CreateMenu);
    let submenu = at.left[0].handle_spec();
    let next = fill(submenu, inner, opened).ask(submenu_call(menu, submenu, label));
    assert(fill(menu, Seq::empty(), next) == next);
    assert(fill(menu, Seq::empty(), opened.refuse()) == opened.refuse());
}

/// A menu without items takes no calls, and a filling begins with no call made, no
/// command known, and the number one.
pub proof fn law_filling_begins(menu: usize, replies: Seq<Reply>, at: Progress)
    ensures
        fill(menu, Seq::empty(), at) == at,
        beginning(replies).left == replies,
        beginning(replies).pending is None,
        beginning(replies).made.len() == 0,
        beginning(replies).next_id == 1,
        beginning(replies).map == Map::<u32, CommandId>::empty(),
        beginning(replies).listed.len() == 0,
        beginning(replies).refused == 0,
{
}

/// A reply is kept, after those that came before it, as long as a call is at hand. The
/// menu and its items stay what they are.
pub proof fn law_filling_replies_kept(run: MenuRun, reply: Reply)
    ensures
        run.after(reply).menu == run.menu,
        run.after(reply).items == run.items,
        run.calls()(run.replies) is Some ==> run.after(reply).replies == run.replies.push(reply),
        run.calls()(run.replies) is None ==> run.after(reply).replies == run.replies,
{
}

/// To record a step touches one number at most: the one that was next, and only where a
/// command was numbered.
pub proof fn law_recording_touches_one_number(
    before: Progress,
    after: Progress,
    map: Map<u32, CommandId>,
    number: u32,
)
    ensures
        number != before.next_id ==> (recorded(before, after, map).contains_key(number)
            <==> map.contains_key(number)),
        number != before.next_id && map.contains_key(number) ==> recorded(
            before,
            after,
            map,
        )[number] == map[number],
        after.listed.len() == before.listed.len() ==> recorded(before, after, map) == map,
        after.listed.len() != before.listed.len() ==> recorded(before, after, map).contains_pair(
            before.next_id,
            after.listed.last(),
        ),
{
}

/// The replies that are left are the last of those there were.
pub(crate) proof fn lemma_fill_left(menu: usize, items: Seq<ItemView>, at: Progress)
    ensures
        fill(menu, items, at).left.len() <= at.left.len(),
        fill(menu, items, at).left == at.left.skip(
            at.left.len() - fill(menu, items, at).left.len(),
        ),
    decreases items,
{
    assert(at.left.skip(0) =~= at.left);
    if at.pending is None && items.len() > 0 {
        let rest = items.drop_first();
        let done = fill(menu, items, at);
        let unused = at.left.len() - done.left.len();
        match items[0] {
            ItemView::Separator => {
                lemma_fill_left(menu, rest, at.ask(separator_call(menu)));
            },
            ItemView::Command(command) => {
                lemma_fill_left(
                    menu,
                    rest,
                    at.list(command.id).ask(command_call(menu, at.next_id, command)),
                );
            },
            ItemView::Submenu { label, items: inner } => {
                let opened = at.ask(CallView::CreateMenu);
                let submenu = at.left[0].handle_spec();
                if opened.pending is Some {
                } else if submenu == 0 {
                    lemma_fill_left(menu, rest, opened.refuse());
                } else {
                    lemma_fill_left(submenu, inner, opened);
                    lemma_fill_left(
                        menu,
                        rest,
                        fill(submenu, inner, opened).ask(submenu_call(menu, submenu, label)),
                    );
                }
            },
        }
        assert(done.left =~= at.left.skip(unused));
    }
}

/// Replies that were left over would not have been missed.
pub(crate) proof fn lemma_fill_unused(
    menu: usize,
    items: Seq<ItemView>,
    at: Progress,
    more: Seq<Reply>,
)
    requires
        fill(menu, items, Progress { left: at.left + more, ..at }).pending is None,
        fill(menu, items, Progress { left: at.left + more, ..at }).left.len() >= more.len(),
    ensures
        fill(menu, items, at).pending is None,
        fill(menu, items, at).left.len() + more.len() == fill(
            menu,
            items,
            Progress { left: at.left + more, ..at },
        ).left.len(),
    decreases items,
{
    let longer = Progress { left: at.left + more, ..at };
    if items.len() > 0 {
        let rest = items.drop_first();
        let call = match items[0] {
            ItemView::Separator => separator_call(menu),
            ItemView::Command(command) => command_call(menu, at.next_id, command),
            ItemView::Submenu { label, items: inner } => CallView::CreateMenu,
        };
        if at.left.len() > 0 {
            assert(longer.left.drop_first() =~= at.left.drop_first() + more);
            assert(longer.left[0] == at.left[0]);
        } else {
            assert(longer.left =~= more);
        }
        match items[0] {
            ItemView::Separator => {
                lemma_fill_waits(menu, rest, longer.ask(call));
                lemma_fill_left(menu, rest, longer.ask(call));
                lemma_fill_unused(menu, rest, at.ask(call), more);
            },
            ItemView::Command(command) => {
                lemma_fill_waits(menu, rest, longer.list(command.id).ask(call));
                lemma_fill_left(menu, rest, longer.list(command.id).ask(call));
                lemma_fill_unused(menu, rest, at.list(command.id).ask(call), more);
            },
            ItemView::Submenu { label, items: inner } => {
                let reopened = longer.ask(call);
                let opened = at.ask(call);
                let submenu = longer.left[0].handle_spec();
                if submenu == 0 {
                    lemma_fill_left(menu, rest, reopened.refuse());
                    lemma_fill_unused(menu, rest, opened.refuse(), more);
                } else {
                    let put = submenu_call(menu, submenu, label);
                    let refilled = fill(submenu, inner, reopened);
                    let filled = fill(submenu, inner, opened);
                    lemma_fill_left(submenu, inner, reopened);
                    lemma_fill_waits(menu, rest, refilled.ask(put));
                    lemma_fill_left(menu, rest, refilled.ask(put));
                    lemma_fill_unused(submenu, inner, opened, more);
                    lemma_fill_more(submenu, inner, opened, more);
                    assert(refilled == (Progress { left: filled.left + more, ..filled }));
                    if filled.left.len() > 0 {
                        assert(refilled.left.drop_first() =~= filled.left.drop_first() + more);
                        assert(refilled.left[0] == filled.left[0]);
                    } else {
                        assert(refilled.left =~= more);
                    }
                    lemma_fill_unused(menu, rest, filled.ask(put), more);
                }
            },
        }
    }
}

} // verus!
