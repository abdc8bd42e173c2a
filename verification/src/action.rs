//! Interaction properties of a data segment: its action menu.

use vstd::prelude::*;
use crate::text::chars_of;

verus! {

/// One entry of an action menu: what the user sees and the command the
/// application receives.
#[derive(Debug, Clone)]
pub struct ActionItem {
    pub desc: String,
    pub cmd: String,
}

/// The interaction of a data segment.
#[derive(Debug, Clone)]
pub struct Action {
    /// Hint shown when the mouse points at the segment.
    pub title: String,
    /// Kind of interaction, defined by the application.
    pub kind: u8,
    /// Menu entries shown on click, as (description, command).
    pub items: Vec<ActionItem>,
    /// The command the user picked.
    pub active: Option<String>,
    /// Category the action belongs to.
    pub category: Option<String>,
}

/// The contents of an action item.
pub struct ActionItemView {
    pub desc: Seq<char>,
    pub cmd: Seq<char>,
}

/// The contents of an action.
#[verifier::ext_equal]
pub struct ActionView {
    pub title: Seq<char>,
    pub kind: u8,
    pub items: Seq<(Seq<char>, Seq<char>)>,
    pub active: Option<Seq<char>>,
    pub category: Option<Seq<char>>,
}

/// The view of an optional string.
pub open spec fn opt_str_view(s: Option<String>) -> Option<Seq<char>> {
    match s {
        Some(t) => Some(t@),
        None => None,
    }
}

impl View for ActionItem {
    type V = (Seq<char>, Seq<char>);

    open spec fn view(&self) -> (Seq<char>, Seq<char>) {
        (self.desc@, self.cmd@)
    }
}

impl View for Action {
    type V = ActionView;

    open spec fn view(&self) -> ActionView {
        ActionView {
            title: self.title@,
            kind: self.kind,
            items: self.items@.map_values(|it: ActionItem| it@),
            active: opt_str_view(self.active),
            category: opt_str_view(self.category),
        }
    }
}

/// A copy of an optional string.
pub fn copy_opt_string(s: &Option<String>) -> (r: Option<String>)
    ensures
        opt_str_view(r) == opt_str_view(*s),
{
    match s {
        Some(t) => Some(t.clone()),
        None => None,
    }
}

impl ActionItem {
    /// An item with the given description and command.
    pub fn new(desc: &str, cmd: &str) -> (it: ActionItem)
        ensures
            it.desc@ == desc@,
            it.cmd@ == cmd@,
    {
        ActionItem { desc: desc.to_owned(), cmd: cmd.to_owned() }
    }

    /// A copy of this item.
    pub fn duplicate(&self) -> (it: ActionItem)
        ensures
            it@ == self@,
    {
        ActionItem { desc: self.desc.clone(), cmd: self.cmd.clone() }
    }
}

impl Action {
    /// A copy of this action.
    pub fn duplicate(&self) -> (a: Action)
        ensures
            a@ == self@,
    {
        let mut items: Vec<ActionItem> = Vec::new();
        let mut i: usize = 0;
        while i < self.items.len()
            invariant
                i <= self.items@.len(),
                items@.len() == i,
                forall|k: int| 0 <= k < i ==> #[trigger] items@[k]@ == self.items@[k]@,
            decreases self.items@.len() - i,
        {
            items.push(self.items[i].duplicate());
            i = i + 1;
        }
        assert(items@.map_values(|it: ActionItem| it@) =~= self.items@.map_values(|it: ActionItem| it@));
        Action {
            title: self.title.clone(),
            kind: self.kind,
            items,
            active: copy_opt_string(&self.active),
            category: copy_opt_string(&self.category),
        }
    }

    /// An empty action: no title, kind 0, no items, nothing picked, no
    /// category.
    pub fn empty() -> (a: Action)
        ensures
            a@.title == Seq::<char>::empty(),
            a.kind == 0,
            a.items@.len() == 0,
            a.active is None,
            a.category is None,
    {
        Action { title: String::new(), kind: 0, items: Vec::new(), active: None, category: None }
    }
}

impl Default for Action {
    fn default() -> (a: Action)
        ensures
            a@.title == Seq::<char>::empty(),
            a.kind == 0,
            a.items@.len() == 0,
            a.active is None,
            a.category is None,
    {
        Action::empty()
    }
}

/// The optional action of a segment, copied.
pub fn copy_opt_action(a: &Option<Action>) -> (r: Option<Action>)
    ensures
        opt_action_view(r) == opt_action_view(*a),
{
    match a {
        Some(x) => Some(x.duplicate()),
        None => None,
    }
}

/// The view of an optional action.
pub open spec fn opt_action_view(a: Option<Action>) -> Option<ActionView> {
    match a {
        Some(x) => Some(x@),
        None => None,
    }
}

/// Whether an optional action belongs to the category `target`.
pub open spec fn in_category(a: Option<Action>, target: Seq<char>) -> bool {
    match a {
        Some(x) => match x.category {
            Some(c) => c@ == target,
            None => false,
        },
        None => false,
    }
}

/// Whether the optional action of a segment belongs to category `target`.
pub fn action_in_category(a: &Option<Action>, target: &String) -> (b: bool)
    ensures
        b == in_category(*a, target@),
{
    match a {
        Some(x) => match &x.category {
            Some(c) => target.eq(c),
            None => false,
        },
        None => false,
    }
}

/// Whether a hint text breaks its line after character `i`: after a
/// sentence end, `. `, `。`, `?`, `？`, `!` or `！`.
pub open spec fn breaks_after(t: Seq<char>, i: int) -> bool {
    ||| t[i] == '。' || t[i] == '?' || t[i] == '？' || t[i] == '!' || t[i] == '！'
    ||| (t[i] == ' ' && i > 0 && t[i - 1] == '.')
}

/// A hint text with a line feed after every sentence end, so that a hint
/// does not run too wide.
pub open spec fn hint_text(t: Seq<char>) -> Seq<char>
    decreases t.len(),
{
    if t.len() == 0 {
        t
    } else {
        hint_text(t.drop_last()) + seq![t.last()] + if breaks_after(t, t.len() - 1) { seq!['\n'] } else { Seq::empty() }
    }
}

/// The hint of an action title, as `hint_text` says.
pub fn hint_of(title: &str) -> (r: Vec<char>)
    ensures
        r@ == hint_text(title@),
{
    let t = chars_of(title);
    let mut r: Vec<char> = Vec::new();
    let mut i: usize = 0;
    assert(t@.take(0) =~= Seq::<char>::empty());
    while i < t.len()
        invariant
            i <= t@.len(),
            r@ == hint_text(t@.take(i as int)),
        decreases t@.len() - i,
    {
        let c = t[i];
        r.push(c);
        let brk = c == '。' || c == '?' || c == '？' || c == '!' || c == '！' || (c == ' ' && i > 0 && t[i - 1] == '.');
        if brk {
            r.push('\n');
        }
        proof {
            let u = t@.take(i + 1);
            assert(u.drop_last() =~= t@.take(i as int));
            assert(u.last() == c);
            assert(i > 0 ==> u[i - 1] == t@[i - 1]);
            assert(brk == breaks_after(u, i as int));
        }
        i = i + 1;
        assert(r@ =~= hint_text(t@.take(i as int)));
    }
    assert(t@.take(t@.len() as int) =~= t@);
    r
}

/// The action with the command of item `picked` marked as the one the user
/// picked; none where there is no such item.
pub fn pick_item(action: &Action, picked: usize) -> (r: Option<Action>)
    ensures
        match r {
            Some(a) => picked < action.items@.len()
                && a@ == (ActionView { active: Some(action.items@[picked as int].cmd@), ..action@ }),
            None => picked >= action.items@.len(),
        },
{
    if picked < action.items.len() {
        let mut a = action.duplicate();
        a.active = Some(action.items[picked].cmd.clone());
        Some(a)
    } else {
        None
    }
}

} // verus!
