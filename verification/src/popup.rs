//! Showing the menu of a tray at the cursor.

use std::collections::HashMap;

use vstd::prelude::*;

use crate::ledger::Resource;
use crate::menu::{MenuBuild, MenuRun, Progress};
use crate::model::{CommandId, ItemView, TrayMenuModel};
use crate::system::{
    CallView, Reply, Step, SystemCall, TPM_BOTTOMALIGN, TPM_LEFTALIGN, TPM_RETURNCMD,
    TPM_RIGHTBUTTON, WM_NULL,
};

verus! {

/// The command that a selection stands for, if it stands for one.
pub open spec fn chosen(map: Map<u32, CommandId>, selected: i32) -> Option<CommandId> {
    if selected != 0 && map.contains_key(selected as u32) {
        Some(map[selected as u32])
    } else {
        None
    }
}

/// How a menu is shown: aligned to the cursor by its left and lower edges, open
/// to both mouse buttons, and telling which entry was selected.
pub open spec fn track_flags() -> u32 {
    TPM_RETURNCMD | TPM_RIGHTBUTTON | TPM_LEFTALIGN | TPM_BOTTOMALIGN
}

/// The showing of a menu: the window it belongs to, its entries, the replies to
/// the calls made so far, and the commands by their numbers as the tray knew them
/// when the selection came. The tray keeps one map for all its menus: where
/// another one is shown while this one is open, the map is that of the other.
pub struct PopupRun {
    pub window: usize,
    pub items: Seq<ItemView>,
    pub replies: Seq<Reply>,
    pub known: Map<u32, CommandId>,
}

impl PopupRun {
    /// The menu that the system made.
    pub open spec fn menu(self) -> usize {
        self.replies[0].handle_spec()
    }

    /// The filling of that menu.
    pub open spec fn filling(self) -> MenuRun {
        MenuRun { menu: self.menu(), items: self.items, replies: self.replies.skip(1) }
    }

    /// How far the filling of that menu has got.
    pub open spec fn progress(self) -> Progress {
        self.filling().progress()
    }

    /// The replies that came after the menu was filled.
    pub open spec fn later(self) -> Seq<Reply> {
        self.progress().left
    }

    /// The command that was selected, if there was one.
    pub open spec fn command(self) -> Option<CommandId> {
        chosen(self.known, self.later()[2].selected_spec())
    }

    /// The next call, if there is one.
    pub open spec fn call(self) -> Option<CallView> {
        if self.replies.len() == 0 {
            Some(CallView::CreateMenu)
        } else if self.menu() == 0 {
            None
        } else if self.progress().pending is Some {
            self.progress().pending
        } else {
            let made = self.later().len();
            if made == 0 {
                Some(CallView::GetCursor)
            } else {
                match self.later()[0].cursor_spec() {
                    None => if made == 1 {
                        Some(CallView::DestroyMenu { menu: self.menu() })
                    } else {
                        None
                    },
                    Some((x, y)) => if made == 1 {
                        Some(CallView::SetForeground { window: self.window })
                    } else if made == 2 {
                        Some(
                            CallView::TrackMenu {
                                menu: self.menu(),
                                flags: track_flags(),
                                x,
                                y,
                                window: self.window,
                            },
                        )
                    } else {
                        let ran = match self.command() {
                            Some(_) => 1int,
                            None => 0,
                        };
                        if made == 2 + ran {
                            Some(CallView::RunCommand { command: self.command()->0 })
                        } else if made == 3 + ran {
                            Some(CallView::DestroyMenu { menu: self.menu() })
                        } else if made == 4 + ran {
                            Some(CallView::PostMessage { window: self.window, message: WM_NULL })
                        } else {
                            None
                        }
                    },
                }
            }
        }
    }

    /// The call that is made after each sequence of replies.
    pub open spec fn calls(self) -> spec_fn(Seq<Reply>) -> Option<CallView> {
        |replies: Seq<Reply>| PopupRun { replies, ..self }.call()
    }

    /// The run after one more reply, given the commands by their numbers as the
    /// tray then knows them.
    pub open spec fn after(self, reply: Reply, map: Map<u32, CommandId>) -> PopupRun {
        match self.call() {
            None => self,
            Some(call) => PopupRun {
                replies: self.replies.push(reply),
                known: if call is TrackMenu {
                    map
                } else {
                    self.known
                },
                ..self
            },
        }
    }

    /// The commands by their numbers as the tray knows them after one more reply.
    /// A menu that was made takes the place of the one before; its commands are put
    /// in as they are numbered.
    pub open spec fn noted(self, reply: Reply, map: Map<u32, CommandId>) -> Map<u32, CommandId> {
        let next = self.after(reply, map);
        if self.replies.len() == 0 {
            if reply.handle_spec() == 0 {
                map
            } else {
                next.progress().map
            }
        } else if self.menu() != 0 && self.progress().pending is Some {
            crate::menu::recorded(self.progress(), next.progress(), map)
        } else {
            map
        }
    }
}

/// What remains to be done for a menu that is shown.
#[derive(Clone, Copy)]
enum PopupStage {
    Create,
    Fill,
    Locate,
    Raise { x: i32, y: i32 },
    Track { x: i32, y: i32 },
    Run { command: CommandId },
    Destroy { shown: bool },
    Post,
    Ended,
}

/// The showing of the menu of a tray.
pub struct PopupMenu<'a> {
    window: usize,
    model: &'a TrayMenuModel,
    menu: usize,
    build: MenuBuild<'a>,
    stage: PopupStage,
    replies: Ghost<Seq<Reply>>,
    known: Ghost<Map<u32, CommandId>>,
}

impl<'a> View for PopupMenu<'a> {
    type V = PopupRun;

    closed spec fn view(&self) -> PopupRun {
        PopupRun {
            window: self.window,
            items: self.model@,
            replies: self.replies@,
            known: self.known@,
        }
    }
}

impl<'a> PopupMenu<'a> {
    /// Whether the stage is the one that the replies lead to.
    pub closed spec fn wf(&self) -> bool {
        let run = self@;
        let made = run.later().len();
        &&& self.build.wf()
        &&& match self.stage {
            PopupStage::Create => run.replies.len() == 0,
            PopupStage::Fill => self.opened() && self.build@ == run.filling()
                && run.progress().pending is Some,
            PopupStage::Locate => self.filled() && made == 0,
            PopupStage::Raise { x, y } => self.filled() && made == 1
                && run.later()[0].cursor_spec() == Some((x, y)),
            PopupStage::Track { x, y } => self.filled() && made == 2
                && run.later()[0].cursor_spec() == Some((x, y)),
            PopupStage::Run { command } => self.filled() && made == 3
                && run.later()[0].cursor_spec() is Some && run.command() == Some(command),
            PopupStage::Destroy { shown } => self.filled() && if shown {
                run.later()[0].cursor_spec() is Some && made == match run.command() {
                    Some(_) => 4int,
                    None => 3,
                }
            } else {
                run.later()[0].cursor_spec() is None && made == 1
            },
            PopupStage::Post => self.filled() && run.later()[0].cursor_spec() is Some && made
                == match run.command() {
                Some(_) => 5int,
                None => 4,
            },
            PopupStage::Ended => run.call() is None,
        }
    }

    /// Whether the menu was made.
    spec fn opened(&self) -> bool {
        let run = self@;
        &&& run.replies.len() > 0
        &&& self.menu == run.menu()
        &&& self.menu != 0
        &&& self.build@.menu == self.menu
        &&& self.build@.items == run.items
    }

    /// Whether the menu was filled.
    spec fn filled(&self) -> bool {
        let run = self@;
        &&& self.opened()
        &&& self.build@.progress().pending is None
        &&& self.build@.progress().left.len() == 0
        &&& run.replies.skip(1) == self.build@.replies + run.later()
        &&& run.progress() == (Progress { left: run.later(), ..self.build@.progress() })
    }

    /// Starts to show the menu of a tray.
    pub fn new(window: usize, model: &'a TrayMenuModel) -> (popup: PopupMenu<'a>)
        ensures
            popup.wf(),
            popup@ == (PopupRun {
                window,
                items: model@,
                replies: Seq::empty(),
                known: Map::empty(),
            }),
    {
        let mut unused: HashMap<u32, CommandId> = HashMap::new();
        PopupMenu {
            window,
            model,
            menu: 0,
            build: MenuBuild::new(0, &model.items, &mut unused),
            stage: PopupStage::Create,
            replies: Ghost(Seq::empty()),
            known: Ghost(Map::empty()),
        }
    }

    /// What comes next: a call, or the end.
    pub fn next(&self) -> (step: Step<()>)
        requires
            self.wf(),
        ensures
            match step {
                Step::Call(call) => self@.call() == Some(call@),
                Step::Done(_) => self@.call() is None,
            },
    {
        match self.stage {
            PopupStage::Create => Step::Call(SystemCall::CreateMenu),
            PopupStage::Fill => self.build.next(),
            PopupStage::Locate => Step::Call(SystemCall::GetCursor),
            PopupStage::Raise { x: _, y: _ } => Step::Call(
                SystemCall::SetForeground { window: self.window },
            ),
            PopupStage::Track { x, y } => Step::Call(
                SystemCall::TrackMenu {
                    menu: self.menu,
                    flags: TPM_RETURNCMD | TPM_RIGHTBUTTON | TPM_LEFTALIGN | TPM_BOTTOMALIGN,
                    x,
                    y,
                    window: self.window,
                },
            ),
            PopupStage::Run { command } => Step::Call(SystemCall::RunCommand { command }),
            PopupStage::Destroy { shown: _ } => Step::Call(
                SystemCall::DestroyMenu { menu: self.menu },
            ),
            PopupStage::Post => Step::Call(
                SystemCall::PostMessage { window: self.window, message: WM_NULL },
            ),
            PopupStage::Ended => Step::Done(()),
        }
    }

    /// Takes the reply to the call that `next` gave. The commands are found by their
    /// numbers in the map of the tray.
    pub fn reply(&mut self, map: &mut HashMap<u32, CommandId>, reply: Reply)
        requires
            old(self).wf(),
        ensures
            final(self).wf(),
            final(self)@ == old(self)@.after(reply, old(map)@),
            final(map)@ == old(self)@.noted(reply, old(map)@),
    {
        broadcast use vstd::std_specs::hash::group_hash_axioms;

        let ghost before = *self;
        let ghost run = PopupRun {
            replies: self.replies@.push(reply),
            known: if self.stage is Track {
                map@
            } else {
                self.known@
            },
            ..self@
        };
        proof {
            if before@.replies.len() > 0 {
                assert(run.replies.skip(1) =~= before@.replies.skip(1).push(reply));
            } else {
                assert(run.replies.skip(1) =~= Seq::<Reply>::empty());
            }
            if self.stage is Fill {
                let filling = before.build@;
                crate::menu::lemma_fill_asks(
                    filling.menu,
                    filling.items,
                    crate::menu::beginning(filling.replies),
                );
            }
            if before.filled() {
                let more = before@.later().push(reply);
                assert(run.replies.skip(1) =~= before.build@.replies + more);
                lemma_later(run, before.build@, more);
            }
        }
        let stage = match self.stage {
            PopupStage::Create => {
                let menu: usize = reply.handle();
                if menu == 0 {
                    PopupStage::Ended
                } else {
                    self.menu = menu;
                    map.clear();
                    self.build = MenuBuild::new(menu, &self.model.items, map);
                    assert(self.build@ == run.filling());
                    proof {
                        crate::menu::law_numbers_recorded(run.filling(), reply);
                    }
                    self.filling_stage()
                }
            },
            PopupStage::Fill => {
                self.build.reply(map, reply);
                assert(self.build@ == run.filling());
                self.filling_stage()
            },
            PopupStage::Locate => match reply.cursor() {
                Some((x, y)) => PopupStage::Raise { x, y },
                None => PopupStage::Destroy { shown: false },
            },
            PopupStage::Raise { x, y } => PopupStage::Track { x, y },
            PopupStage::Track { x: _, y: _ } => {
                let selected: i32 = reply.selected();
                if selected == 0 {
                    PopupStage::Destroy { shown: true }
                } else {
                    match map.get(&(selected as u32)) {
                        Some(command) => PopupStage::Run { command: *command },
                        None => PopupStage::Destroy { shown: true },
                    }
                }
            },
            PopupStage::Run { command: _ } => PopupStage::Destroy { shown: true },
            PopupStage::Destroy { shown } => if shown {
                PopupStage::Post
            } else {
                PopupStage::Ended
            },
            PopupStage::Post => PopupStage::Ended,
            PopupStage::Ended => return ,
        };
        self.stage = stage;
        self.replies = Ghost(run.replies);
        self.known = Ghost(run.known);
        assert(self@ == run);
        proof {
            if self.stage is Locate {
                assert(run.replies.skip(1) =~= self.build@.replies + run.later());
            }
        }
    }

    /// What comes after a reply while the menu is filled.
    fn filling_stage(&self) -> (stage: PopupStage)
        requires
            self.build.wf(),
        ensures
            stage == if self.build@.progress().pending is None {
                PopupStage::Locate
            } else {
                PopupStage::Fill
            },
            self.build@.progress().left.len() == 0,
    {
        if self.build.finished() {
            PopupStage::Locate
        } else {
            PopupStage::Fill
        }
    }
}

/// Replies that come after a menu is filled are left over.
proof fn lemma_later(run: PopupRun, filling: MenuRun, more: Seq<Reply>)
    requires
        filling.menu == run.menu(),
        filling.items == run.items,
        filling.progress().pending is None,
        filling.progress().left.len() == 0,
        run.replies.skip(1) == filling.replies + more,
    ensures
        run.progress() == (Progress { left: more, ..filling.progress() }),
{
    crate::menu::lemma_fill_more(
        filling.menu,
        filling.items,
        crate::menu::beginning(filling.replies),
        more,
    );
    assert(filling.progress().left + more =~= more);
}

/// One reply more comes after the others where the menu was filled.
proof fn lemma_one_later(run: PopupRun, reply: Reply)
    requires
        run.replies.len() > 0,
        run.progress().pending is None,
    ensures
        (PopupRun { replies: run.replies.push(reply), ..run }).progress() == (Progress {
            left: run.later().push(reply),
            ..run.progress()
        }),
{
    let filling = run.filling();
    let longer = PopupRun { replies: run.replies.push(reply), ..run };
    assert(longer.filling().replies =~= filling.replies + seq![reply]);
    crate::menu::lemma_fill_more(
        filling.menu,
        filling.items,
        crate::menu::beginning(filling.replies),
        seq![reply],
    );
    assert(run.later() + seq![reply] =~= run.later().push(reply));
}

/// Where a menu still lacks an entry, every reply so far answered a call.
proof fn lemma_filling_answered(run: MenuRun, reply: Reply)
    requires
        run.progress().pending is Some,
    ensures
        crate::ledger::answered(run.calls(), run.replies.push(reply)),
{
    let replies = run.replies.push(reply);
    assert forall|i: int| 0 <= i < replies.len() implies run.calls()(
        #[trigger] replies.take(i),
    ) is Some by {
        let shorter = MenuRun { replies: run.replies.take(i), ..run };
        assert(replies.take(i) =~= shorter.replies);
        if shorter.progress().pending is None {
            let more = run.replies.skip(i);
            crate::menu::lemma_fill_more(
                run.menu,
                run.items,
                crate::menu::beginning(shorter.replies),
                more,
            );
            assert(shorter.replies + more =~= run.replies);
        }
    }
}

/// Whether the menu has been destroyed.
spec fn closed_again(run: PopupRun) -> bool {
    let made = run.later().len();
    made > 0 && match run.later()[0].cursor_spec() {
        None => made >= 2,
        Some(_) => made >= 3 && made >= match run.command() {
            Some(_) => 5int,
            None => 4,
        },
    }
}

/// The menu itself, for as long as it is there.
spec fn root(run: PopupRun) -> Option<Resource> {
    if run.replies.len() == 0 || run.menu() == 0 {
        None
    } else if run.progress().pending is None && closed_again(run) {
        None
    } else {
        Some(Resource::Menu(run.menu()))
    }
}

/// What is held while a menu is shown: the menu, and the submenus that have not
/// been put in.
proof fn lemma_popup_held(run: PopupRun, resource: Resource)
    requires
        crate::ledger::answered(run.calls(), run.replies),
    ensures
        crate::ledger::held(crate::ledger::trace(run.calls(), run.replies), resource)
            == crate::ledger::only(root(run), resource) + (if run.replies.len() == 0 || run.menu()
            == 0 {
            0
        } else {
            crate::ledger::held(run.progress().made, resource)
        }),
        run.replies.len() > 0 && run.menu() != 0 && run.progress().pending is Some ==> {
            &&& run.progress().made == crate::ledger::trace(
                run.filling().calls(),
                run.filling().replies,
            )
            &&& run.later().len() == 0
        },
    decreases run.replies.len(),
{
    let calls = run.calls();
    if run.replies.len() > 0 {
        let shorter = PopupRun { replies: run.replies.drop_last(), ..run };
        let last = run.replies.last();
        assert(run.replies =~= shorter.replies.push(last));
        assert(shorter.calls() =~= calls);
        crate::ledger::lemma_trace_push(calls, shorter.replies, last);
        lemma_popup_held(shorter, resource);
        let before = crate::ledger::trace(calls, shorter.replies);
        let call = shorter.call()->0;
        crate::ledger::lemma_held_push(before, call, last, resource);
        if shorter.replies.len() == 0 {
            assert(run.filling().replies =~= Seq::<Reply>::empty());
            crate::menu::law_calls_made_in_turn(run.filling());
            assert(run.progress().made.len() == 0);
        } else {
            assert(run.menu() == shorter.menu());
            if shorter.progress().pending is Some {
                let filling = shorter.filling();
                assert(run.filling().replies =~= filling.replies.push(last));
                assert(run.filling().calls() =~= filling.calls());
                lemma_filling_answered(filling, last);
                crate::menu::law_calls_made_in_turn(run.filling());
                crate::ledger::lemma_trace_push(filling.calls(), filling.replies, last);
                crate::ledger::lemma_held_push(shorter.progress().made, call, last, resource);
            } else {
                lemma_one_later(shorter, last);
            }
        }
    }
}

/// By the time a menu has been shown, everything that was taken for it has been
/// given back, but for submenus that the system would not put in.
pub proof fn law_menu_given_back(run: PopupRun, resource: Resource)
    requires
        crate::ledger::answered(run.calls(), run.replies),
        run.call() is None,
    ensures
        crate::ledger::balance(crate::ledger::trace(run.calls(), run.replies), resource)
            == crate::ledger::strays(crate::ledger::trace(run.calls(), run.replies), resource),
{
    lemma_popup_held(run, resource);
    if run.menu() != 0 {
        crate::menu::law_submenus_put_in_once(run.filling(), resource);
    }
}

/// Showing a menu ends, after no more calls than its entries ask for and seven.
pub proof fn law_showing_ends(run: PopupRun)
    requires
        run.replies.len() >= crate::menu::calls_of(run.items) + 7,
    ensures
        run.call() is None,
{
    if run.menu() != 0 {
        crate::menu::law_filling_ends(run.filling());
    }
}

/// Where nothing else changes the map of the tray, it holds the commands of the
/// menu by their numbers, from the making of the menu to the selection.
pub proof fn law_tray_knows_the_numbers(run: PopupRun, reply: Reply, map: Map<u32, CommandId>)
    requires
        run.call() is Some,
        run.replies.len() > 0 ==> map == run.progress().map,
        run.replies.len() > 0 || reply.handle_spec() != 0,
    ensures
        run.noted(reply, map) == run.after(reply, map).progress().map,
        run.call()->0 is TrackMenu ==> run.after(reply, map).known == run.after(
            reply,
            map,
        ).progress().map,
{
    if run.replies.len() > 0 {
        assert(run.replies.push(reply).skip(1) =~= run.replies.skip(1).push(reply));
        let filling = run.filling();
        if run.progress().pending is Some {
            crate::menu::law_numbers_recorded(filling, reply);
            crate::menu::lemma_fill_asks(
                filling.menu,
                filling.items,
                crate::menu::beginning(filling.replies),
            );
        } else {
            lemma_one_later(run, reply);
        }
    }
}

/// The entry that was selected is the one whose command runs, as long as the
/// system made every submenu and no other menu was shown in between.
pub proof fn law_selection_runs_its_command(run: PopupRun, index: int)
    requires
        run.replies.len() > 0,
        run.menu() != 0,
        run.progress().pending is None,
        run.progress().refused == 0,
        run.known == run.progress().map,
        run.later().len() == 3,
        run.later()[0].cursor_spec() is Some,
        0 <= index < crate::menu::commands_of(run.items).len(),
        crate::menu::commands_of(run.items).len() <= u32::MAX,
        run.later()[2].selected_spec() as u32 == index + 1,
    ensures
        run.call() == Some(
            CallView::RunCommand { command: crate::menu::commands_of(run.items)[index] },
        ),
{
    crate::menu::law_number_leads_to_command(run.filling(), index);
    assert(run.later()[2].selected_spec() != 0);
}

/// A command runs only where it was selected by its number.
pub proof fn law_only_the_selection_runs(run: PopupRun, command: CommandId)
    requires
        run.call() == Some(CallView::RunCommand { command }),
    ensures
        run.progress().pending is None,
        run.later().len() == 3,
        run.later()[2].selected_spec() != 0,
        run.known.contains_pair(run.later()[2].selected_spec() as u32, command),
{
    let filling = run.filling();
    crate::menu::lemma_fill_asks(
        filling.menu,
        filling.items,
        crate::menu::beginning(filling.replies),
    );
}

/// A menu opens at the cursor: where the next call is to open it, the reply before last
/// answered the question where the cursor is, and the menu opens in that place. It is
/// the menu that was made first of all, for the window of the tray, and it tells which
/// entry was selected.
pub proof fn law_menu_opens_at_the_cursor(
    run: PopupRun,
    menu: usize,
    flags: u32,
    x: i32,
    y: i32,
    window: usize,
)
    requires
        run.call() == Some(CallView::TrackMenu { menu, flags, x, y, window }),
    ensures
        run.replies.len() >= 3,
        run.replies[run.replies.len() - 2] == (Reply::Cursor { found: true, x, y }),
        run.calls()(run.replies.take(run.replies.len() - 2)) == Some(CallView::GetCursor),
        run.calls()(run.replies.drop_last()) == Some(CallView::SetForeground { window }),
        run.replies[0] == Reply::Handle(menu),
        menu != 0,
        flags == 0x122,
        window == run.window,
{
    let filling = run.filling();
    let start = crate::menu::beginning(filling.replies);
    crate::menu::lemma_fill_asks(filling.menu, filling.items, start);
    crate::menu::lemma_fill_left(filling.menu, filling.items, start);
    let replies = run.replies;
    let many = replies.len() as int;
    assert(run.later() =~= replies.skip(many - 2));
    assert(run.later()[0] == replies[many - 2]);
    assert(0x100u32 | 0x2 | 0 | 0x20 == 0x122) by (bit_vector);
    let asked = PopupRun { replies: replies.take(many - 2), ..run };
    assert(filling.replies =~= asked.filling().replies + run.later());
    crate::menu::lemma_fill_unused(
        filling.menu,
        filling.items,
        crate::menu::beginning(asked.filling().replies),
        run.later(),
    );
    let told = PopupRun { replies: replies.drop_last(), ..run };
    assert(told.replies =~= asked.replies.push(replies[many - 2]));
    lemma_one_later(asked, replies[many - 2]);
}

/// Showing a menu starts with making it. Where the system makes none, that is all.
/// Otherwise it is filled from its first item on.
pub proof fn law_showing_begins(run: PopupRun, reply: Reply, map: Map<u32, CommandId>)
    requires
        run.replies.len() == 0,
    ensures
        run.call() == Some(CallView::CreateMenu),
        reply.handle_spec() == 0 ==> run.after(reply, map).call() is None,
        reply.handle_spec() == 0 ==> run.noted(reply, map) == map,
        reply.handle_spec() != 0 ==> run.after(reply, map).filling() == (MenuRun {
            menu: reply.handle_spec(),
            items: run.items,
            replies: Seq::empty(),
        }),
        reply.handle_spec() != 0 ==> run.after(reply, map).call() == match run.after(
            reply,
            map,
        ).progress().pending {
            Some(call) => Some(call),
            None => Some(CallView::GetCursor),
        },
        reply.handle_spec() != 0 ==> run.noted(reply, map) == run.after(
            reply,
            map,
        ).progress().map,
{
    let next = run.after(reply, map);
    assert(next.replies =~= seq![reply]);
    assert(next.filling().replies =~= Seq::<Reply>::empty());
    if reply.handle_spec() != 0 {
        let filling = next.filling();
        crate::menu::lemma_fill_left(
            filling.menu,
            filling.items,
            crate::menu::beginning(filling.replies),
        );
    }
}

/// While the menu is being filled, each reply goes to the filling, and the calls are
/// those of the filling. Once it is filled, the cursor is asked for.
pub proof fn law_menu_filled_first(run: PopupRun, reply: Reply, map: Map<u32, CommandId>)
    requires
        run.replies.len() > 0,
        run.replies[0].handle_spec() != 0,
        run.progress().pending is Some,
    ensures
        run.call() == run.progress().pending,
        run.after(reply, map).filling() == run.filling().after(reply),
        run.after(reply, map).call() == match run.filling().after(reply).progress().pending {
            Some(call) => Some(call),
            None => Some(CallView::GetCursor),
        },
        run.noted(reply, map) == crate::menu::recorded(
            run.progress(),
            run.filling().after(reply).progress(),
            map,
        ),
{
    let next = run.after(reply, map);
    assert(next.filling().replies =~= run.filling().replies.push(reply));
    lemma_filling_answered(run.filling(), reply);
    assert(run.filling().after(reply).calls() =~= run.filling().calls());
    crate::menu::law_calls_made_in_turn(run.filling().after(reply));
}

/// Where the cursor is not found, the menu is destroyed and nothing more is done.
/// Otherwise the window is brought to the front, and the menu opens in the place where
/// the cursor was found.
pub proof fn law_cursor_decides(
    run: PopupRun,
    cursor: Reply,
    reply: Reply,
    map: Map<u32, CommandId>,
    later: Map<u32, CommandId>,
)
    requires
        run.call() == Some(CallView::GetCursor),
    ensures
        ({
            let found = run.after(cursor, map);
            let next = found.after(reply, later);
            match cursor {
                Reply::Cursor { found: true, x, y } => {
                    &&& found.call() == Some(CallView::SetForeground { window: run.window })
                    &&& next.call() == Some(
                        CallView::TrackMenu {
                            menu: run.replies[0].handle_spec(),
                            flags: 0x122,
                            x,
                            y,
                            window: run.window,
                        },
                    )
                },
                _ => {
                    &&& found.call() == Some(
                        CallView::DestroyMenu { menu: run.replies[0].handle_spec() },
                    )
                    &&& next.call() is None
                },
            }
        }),
        run.noted(cursor, map) == map,
        run.after(cursor, map).noted(reply, later) == later,
{
    let filling = run.filling();
    crate::menu::lemma_fill_asks(
        filling.menu,
        filling.items,
        crate::menu::beginning(filling.replies),
    );
    let found = run.after(cursor, map);
    lemma_one_later(run, cursor);
    lemma_one_later(found, reply);
    assert(0x100u32 | 0x2 | 0 | 0x20 == 0x122) by (bit_vector);
}

/// The selection decides what is done with an open menu. A number under which the tray
/// knows a command runs that command; any other number, and zero, runs none. Then, in
/// either case, the menu is destroyed, an empty message goes to the window, and that is
/// all.
pub proof fn law_selection_decides(
    run: PopupRun,
    selection: Reply,
    replies: Seq<Reply>,
    map: Map<u32, CommandId>,
    maps: Seq<Map<u32, CommandId>>,
)
    requires
        run.call() is Some,
        run.call()->0 is TrackMenu,
    ensures
        ({
            let number = match selection {
                Reply::Selected(number) => number,
                _ => 0,
            };
            let selected = run.after(selection, map);
            let ran = selected.after(replies[0], maps[0]);
            let rid = if number != 0 && map.contains_key(number as u32) {
                ran
            } else {
                selected
            };
            let destroyed = rid.after(replies[1], maps[1]);
            let posted = destroyed.after(replies[2], maps[2]);
            &&& number != 0 && map.contains_key(number as u32) ==> selected.call() == Some(
                CallView::RunCommand { command: map[number as u32] },
            )
            &&& rid.call() == Some(CallView::DestroyMenu { menu: run.replies[0].handle_spec() })
            &&& destroyed.call() == Some(
                CallView::PostMessage { window: run.window, message: 0 },
            )
            &&& posted.call() is None
            &&& run.noted(selection, map) == map
            &&& selected.noted(replies[0], maps[0]) == maps[0]
            &&& rid.noted(replies[1], maps[1]) == maps[1]
            &&& destroyed.noted(replies[2], maps[2]) == maps[2]
        }),
{
    let filling = run.filling();
    crate::menu::lemma_fill_asks(
        filling.menu,
        filling.items,
        crate::menu::beginning(filling.replies),
    );
    let selected = run.after(selection, map);
    lemma_one_later(run, selection);
    assert(selected.command() == chosen(map, selection.selected_spec()));
    let ran = selected.after(replies[0], maps[0]);
    lemma_one_later(selected, replies[0]);
    let rid = if selected.command() is Some {
        ran
    } else {
        selected
    };
    let destroyed = rid.after(replies[1], maps[1]);
    lemma_one_later(rid, replies[1]);
    lemma_one_later(destroyed, replies[2]);
}

/// A reply is kept, after those that came before it, as long as a call is at hand. The
/// window and the items stay what they are, and so do the commands by their numbers,
/// which are looked up when the selection comes and at no other time.
pub proof fn law_popup_replies_kept(run: PopupRun, reply: Reply, map: Map<u32, CommandId>)
    ensures
        run.after(reply, map).window == run.window,
        run.after(reply, map).items == run.items,
        run.call() is Some ==> run.after(reply, map).replies == run.replies.push(reply),
        run.call() is None ==> run.after(reply, map) == run && run.noted(reply, map) == map,
        run.after(reply, map).known == match run.call() {
            Some(CallView::TrackMenu { .. }) => map,
            _ => run.known,
        },
{
}

} // verus!
