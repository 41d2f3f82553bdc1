//! The history of a conversation as the interface holds it: restored from a
//! saved chat, grown by the events of a completion, and saved back.
use vstd::prelude::*;
use crate::assistant::ReplyView;
use crate::chat;
use crate::chat::{EventView, ItemView};
use crate::plan::{OutcomeView, StatusView};
use crate::ui::plan;
use crate::ui::plan::{
    Plan, plan_updated, ShownOutcome, ShownPlan, applied, appended_token, outcome_data_of, plan_data_of,
    shown_outcome, shown_plan, shown_reply, updated_reply,
};
use crate::ui::{
    Reply, ShownReasoning, ShownReply, lemma_reasoning_roundtrip, reply_data_of, shown,
};

verus! {

/// An item of the history as the interface holds it.
#[derive(Debug)]
pub enum Item {
    User(String),
    Reply(Reply),
    Plan(Plan),
}

/// The mathematical form of a shown [`Item`].
pub enum ShownItem {
    User(Seq<char>),
    Reply(ShownReply),
    Plan(ShownPlan),
}

impl View for Item {
    type V = ShownItem;

    open spec fn view(&self) -> ShownItem {
        match self {
            Item::User(c) => ShownItem::User(c@),
            Item::Reply(r) => ShownItem::Reply(r@),
            Item::Plan(p) => ShownItem::Plan(p@),
        }
    }
}

impl DeepView for Item {
    type V = ShownItem;

    open spec fn deep_view(&self) -> ShownItem {
        self@
    }
}

/// An item of a saved chat as shown.
pub open spec fn shown_item(i: ItemView) -> ShownItem {
    match i {
        ItemView::User(c) => ShownItem::User(c),
        ItemView::Reply(r) => ShownItem::Reply(shown_reply(r)),
        ItemView::Plan(p) => ShownItem::Plan(shown_plan(p)),
    }
}

/// A shown item as data.
pub open spec fn item_data_of(i: ShownItem) -> ItemView {
    match i {
        ShownItem::User(c) => ItemView::User(c),
        ShownItem::Reply(r) => ItemView::Reply(reply_data_of(r)),
        ShownItem::Plan(p) => ItemView::Plan(plan_data_of(p)),
    }
}

/// The reply that a new reply starts as.
pub open spec fn empty_reply() -> ShownReply {
    ShownReply { reasoning: None, content: Seq::empty() }
}

/// The plan that a new plan starts as.
pub open spec fn empty_plan() -> ShownPlan {
    ShownPlan { reasoning: None, steps: Seq::empty(), outcomes: Seq::empty(), active_step: None }
}

/// The history once `event` happens: a new reply or plan goes last, and a
/// change applies to the last item when it is a reply or a plan.
pub open spec fn history_after(items: Seq<ShownItem>, event: EventView) -> Seq<ShownItem> {
    match event {
        EventView::ReplyAdded => items.push(ShownItem::Reply(empty_reply())),
        EventView::ReplyChanged { reply, .. } => {
            if items.len() > 0 && items.last() is Reply {
                items.update(items.len() - 1, ShownItem::Reply(updated_reply(reply)))
            } else {
                items
            }
        },
        EventView::PlanAdded => items.push(ShownItem::Plan(empty_plan())),
        EventView::PlanChanged(e) => {
            if items.len() > 0 && items.last() is Plan {
                items.update(items.len() - 1, ShownItem::Plan(applied(items.last()->Plan_0, e)))
            } else {
                items
            }
        },
    }
}

/// The token that extends the text of the last item, if `event` extends it.
pub open spec fn history_token(items: Seq<ShownItem>, event: EventView) -> Option<Seq<char>> {
    match event {
        EventView::ReplyChanged { reply, .. } => {
            if items.len() > 0 && items.last() is Reply {
                reply.last_token
            } else {
                None
            }
        },
        EventView::PlanChanged(e) => {
            if items.len() > 0 && items.last() is Plan {
                appended_token(items.last()->Plan_0, e)
            } else {
                None
            }
        },
        _ => None,
    }
}

/// A new reply or plan goes after every item already there, and starts
/// empty; a changed reply rewrites the last item when it is a reply, keeping
/// every earlier item, with the reply's content, and its reasoning (if any)
/// unfolded exactly while no talking token has come; with no reply last, a
/// change of reply changes nothing.
pub proof fn lemma_history_events(items: Seq<ShownItem>, reply: ReplyView, token: crate::assistant::TokenView)
    ensures
        history_after(items, EventView::ReplyAdded).len() == items.len() + 1,
        history_after(items, EventView::ReplyAdded).drop_last() == items,
        history_after(items, EventView::ReplyAdded).last() == ShownItem::Reply(
            ShownReply { reasoning: None, content: Seq::empty() },
        ),
        history_after(items, EventView::PlanAdded).len() == items.len() + 1,
        history_after(items, EventView::PlanAdded).drop_last() == items,
        history_after(items, EventView::PlanAdded).last() matches ShownItem::Plan(p) && p.steps.len()
            == 0 && p.outcomes.len() == 0 && p.reasoning is None,
        ({
            let after = history_after(items, EventView::ReplyChanged { reply, new_token: token });
            &&& items.len() > 0 && items.last() is Reply ==> {
                &&& after.len() == items.len()
                &&& after.drop_last() == items.drop_last()
                &&& after.last() matches ShownItem::Reply(r) && {
                    &&& r.content == reply.content
                    &&& r.reasoning is Some <==> reply.reasoning is Some
                    &&& r.reasoning matches Some(x) ==> (x.show <==> reply.last_token is None)
                }
            }
            &&& !(items.len() > 0 && items.last() is Reply) ==> after == items
        }),
{
    assert(items.push(ShownItem::Reply(empty_reply())).drop_last() =~= items);
    assert(items.push(ShownItem::Plan(empty_plan())).drop_last() =~= items);
    if items.len() > 0 {
        assert(items.update(items.len() - 1, ShownItem::Reply(updated_reply(reply))).drop_last()
            =~= items.drop_last());
    }
}

/// The history once the reasoning of the reply at `index`, if that item is a
/// reply, is unfolded (`show`) or folded.
pub open spec fn reasoning_toggled(items: Seq<ShownItem>, index: int, show: bool) -> Seq<ShownItem> {
    if 0 <= index < items.len() && items[index] is Reply {
        let r = items[index]->Reply_0;
        items.update(
            index,
            ShownItem::Reply(
                ShownReply {
                    reasoning: match r.reasoning {
                        Some(x) => Some(ShownReasoning { show, ..x }),
                        None => None,
                    },
                    ..r
                },
            ),
        )
    } else {
        items
    }
}

/// The history once the plan at `index`, if that item is a plan, takes in
/// message `m` of its view.
pub open spec fn plan_message_applied(items: Seq<ShownItem>, index: int, m: plan::Message) -> Seq<ShownItem> {
    if 0 <= index < items.len() && items[index] is Plan {
        items.update(index, ShownItem::Plan(plan_updated(items[index]->Plan_0, m)))
    } else {
        items
    }
}

/// The history of a conversation.
#[derive(Debug)]
pub struct History {
    items: Vec<Item>,
}

impl View for History {
    type V = Seq<ShownItem>;

    closed spec fn view(&self) -> Seq<ShownItem> {
        self.items.deep_view()
    }
}

fn shown_item_of(item: chat::Item) -> (i: Item)
    ensures
        i@ == shown_item(item@),
{
    match item {
        chat::Item::User(c) => Item::User(c),
        chat::Item::Reply(r) => Item::Reply(Reply::from_data(r)),
        chat::Item::Plan(p) => Item::Plan(Plan::from_data(p)),
    }
}

impl History {
    /// An empty history.
    pub fn new() -> (h: History)
        ensures
            h@ == Seq::<ShownItem>::empty(),
    {
        let h = History { items: Vec::new() };
        assert(h.items.deep_view() =~= Seq::<ShownItem>::empty());
        h
    }

    /// The history of a saved chat.
    pub fn restore(items: Vec<chat::Item>) -> (h: History)
        ensures
            h@ == items.deep_view().map_values(|i: ItemView| shown_item(i)),
    {
        let ghost all = items.deep_view();
        let ghost expected = all.map_values(|i: ItemView| shown_item(i));
        let mut shown: Vec<Item> = Vec::new();
        let mut rest = items;
        while rest.len() > 0
            invariant
                expected == all.map_values(|i: ItemView| shown_item(i)),
                shown.deep_view().len() + rest.deep_view().len() == all.len(),
                shown.deep_view() == expected.take(shown.deep_view().len() as int),
                rest.deep_view() == all.skip(shown.deep_view().len() as int),
            decreases rest.len(),
        {
            let ghost k = shown.deep_view().len() as int;
            let ghost before_rest = rest.deep_view();
            let item = rest.remove(0);
            assert(before_rest =~= seq![item@] + rest.deep_view());
            assert(before_rest[0] == all.skip(k)[0]);
            let one = shown_item_of(item);
            shown.push(one);
            assert(shown.deep_view() =~= expected.take(k + 1));
            assert(rest.deep_view() =~= before_rest.drop_first());
            assert(all.skip(k).drop_first() =~= all.skip(k + 1));
        }
        assert(shown.deep_view() =~= expected);
        History { items: shown }
    }

    /// The items of the history.
    pub fn items(&self) -> (items: &Vec<Item>)
        ensures
            items.deep_view() == self@,
    {
        &self.items
    }

    /// The history as the items of a chat.
    pub fn to_data(&self) -> (items: Vec<chat::Item>)
        ensures
            items.deep_view() == self@.map_values(|i: ShownItem| item_data_of(i)),
    {
        let mut items: Vec<chat::Item> = Vec::new();
        let mut k: usize = 0;
        while k < self.items.len()
            invariant
                k <= self.items.len(),
                items.deep_view() == self.items.deep_view().take(k as int).map_values(
                    |i: ShownItem| item_data_of(i),
                ),
            decreases self.items.len() - k,
        {
            let item = match &self.items[k] {
                Item::User(c) => chat::Item::User(c.clone()),
                Item::Reply(r) => chat::Item::Reply(r.to_data()),
                Item::Plan(p) => chat::Item::Plan(p.to_data()),
            };
            let ghost before = items.deep_view();
            items.push(item);
            assert(items.deep_view() =~= before.push(item@));
            assert(self.items.deep_view().take(k + 1).map_values(|i: ShownItem| item_data_of(i))
                =~= before.push(item_data_of(self.items@[k as int]@)));
            k += 1;
        }
        assert(self.items.deep_view().take(k as int) =~= self.items.deep_view());
        items
    }

    /// Adds a message of the user.
    pub fn push_user(&mut self, content: String)
        ensures
            final(self)@ == old(self)@.push(ShownItem::User(content@)),
    {
        let ghost before = self.items.deep_view();
        let ghost c = content@;
        self.items.push(Item::User(content));
        assert(self.items.deep_view() =~= before.push(ShownItem::User(c)));
    }

    /// Keeps the first `amount` items, to answer again from there.
    pub fn truncate(&mut self, amount: usize)
        ensures
            final(self)@ == (if amount < old(self)@.len() {
                old(self)@.take(amount as int)
            } else {
                old(self)@
            }),
    {
        let ghost before = self.items.deep_view();
        self.items.truncate(amount);
        assert(amount < before.len() ==> self.items.deep_view() =~= before.take(amount as int));
        assert(amount >= before.len() ==> self.items.deep_view() =~= before);
    }

    /// Follows an event of the completion. The result is the token that
    /// extends the text of the last item, if the event extends it.
    pub fn apply(&mut self, event: chat::Event) -> (token: Option<String>)
        ensures
            final(self)@ == history_after(old(self)@, event@),
            token.deep_view() == history_token(old(self)@, event@),
    {
        let ghost before = self.items.deep_view();
        match event {
            chat::Event::ReplyAdded => {
                let reply = Item::Reply(Reply { reasoning: None, content: String::new() });
                self.items.push(reply);
                assert(self.items.deep_view() =~= before.push(ShownItem::Reply(empty_reply())));
                None
            },
            chat::Event::ReplyChanged { reply, .. } => {
                let n: usize = self.items.len();
                if n > 0 {
                    if let Item::Reply(_) = &self.items[n - 1] {
                        let mut shown = Reply { reasoning: None, content: String::new() };
                        let token = shown.update(reply);
                        let ghost s = shown@;
                        let mut item = Item::Reply(shown);
                        self.items.set_and_swap(n - 1, &mut item);
                        assert(self.items.deep_view() =~= before.update(
                            n - 1,
                            ShownItem::Reply(s),
                        ));
                        return token;
                    }
                }
                None
            },
            chat::Event::PlanAdded => {
                let plan = Item::Plan(Plan::new());
                let ghost p = plan@;
                self.items.push(plan);
                assert(p == ShownItem::Plan(empty_plan()));
                assert(self.items.deep_view() =~= before.push(ShownItem::Plan(empty_plan())));
                None
            },
            chat::Event::PlanChanged(e) => {
                let n: usize = self.items.len();
                if n > 0 {
                    if let Item::Plan(_) = &self.items[n - 1] {
                        let mut item = Item::User(String::new());
                        self.items.set_and_swap(n - 1, &mut item);
                        let token = match &mut item {
                            Item::Plan(p) => p.apply(e),
                            _ => None,
                        };
                        let ghost changed = item@;
                        self.items.set_and_swap(n - 1, &mut item);
                        assert(self.items.deep_view() =~= before.update(n - 1, changed));
                        return token;
                    }
                }
                None
            },
        }
    }

    /// Hands message `m` to the view of the plan at `index`.
    pub fn update_plan(&mut self, index: usize, m: plan::Message)
        ensures
            final(self)@ == plan_message_applied(old(self)@, index as int, m),
    {
        if index < self.items.len() {
            let ghost before = self.items.deep_view();
            let mut item = Item::User(String::new());
            self.items.set_and_swap(index, &mut item);
            if let Item::Plan(p) = &mut item {
                p.update(m);
            }
            let ghost changed = item@;
            self.items.set_and_swap(index, &mut item);
            assert(self.items.deep_view() =~= before.update(index as int, changed));
            assert(self.items.deep_view() =~= plan_message_applied(before, index as int, m));
        }
    }

    /// Unfolds or folds the reasoning of the reply at `index`.
    pub fn toggle_reasoning(&mut self, index: usize, show: bool)
        ensures
            final(self)@ == reasoning_toggled(old(self)@, index as int, show),
    {
        if index < self.items.len() {
            let ghost before = self.items.deep_view();
            let mut item = Item::User(String::new());
            self.items.set_and_swap(index, &mut item);
            if let Item::Reply(reply) = &mut item {
                reply.toggle_reasoning(show);
            }
            let ghost changed = item@;
            self.items.set_and_swap(index, &mut item);
            assert(self.items.deep_view() =~= before.update(index as int, changed));
            assert(self.items.deep_view() =~= reasoning_toggled(before, index as int, show));
        }
    }
}

/// Whether a reply is complete: no token is pending on it.
pub open spec fn reply_is_complete(r: ReplyView) -> bool {
    r.last_token is None
}

/// Whether every reply of a saved item, answers of plans included, is complete.
pub open spec fn item_is_complete(i: ItemView) -> bool {
    match i {
        ItemView::User(_) => true,
        ItemView::Reply(r) => reply_is_complete(r),
        ItemView::Plan(p) => forall|k: int|
            0 <= k < p.outcomes.len() ==> match #[trigger] p.outcomes[k] {
                OutcomeView::Answer(StatusView::Active(r)) => reply_is_complete(r),
                OutcomeView::Answer(StatusView::Done(r)) => reply_is_complete(r),
                _ => true,
            },
    }
}

proof fn lemma_reply_roundtrip(r: ReplyView)
    requires
        reply_is_complete(r),
    ensures
        reply_data_of(shown_reply(r)) == r,
{
    match r.reasoning {
        Some(x) => {
            lemma_reasoning_roundtrip(x.content);
        },
        None => {},
    }
}

proof fn lemma_outcome_roundtrip(o: OutcomeView)
    requires
        match o {
            OutcomeView::Answer(StatusView::Active(r)) => reply_is_complete(r),
            OutcomeView::Answer(StatusView::Done(r)) => reply_is_complete(r),
            _ => true,
        },
    ensures
        outcome_data_of(shown_outcome(o)) == o,
{
    match o {
        OutcomeView::Answer(StatusView::Active(r)) => lemma_reply_roundtrip(r),
        OutcomeView::Answer(StatusView::Done(r)) => lemma_reply_roundtrip(r),
        _ => {},
    }
}

/// A saved chat restored into the conversation and saved again is the same
/// chat, when none of its replies has a token pending.
pub proof fn lemma_restore_then_save(items: Seq<ItemView>)
    requires
        forall|k: int| 0 <= k < items.len() ==> item_is_complete(#[trigger] items[k]),
    ensures
        items.map_values(|i: ItemView| shown_item(i)).map_values(|i: ShownItem| item_data_of(i))
            == items,
{
    assert forall|k: int| 0 <= k < items.len() implies item_data_of(
        shown_item(#[trigger] items[k]),
    ) == items[k] by {
        assert(item_is_complete(items[k]));
        match items[k] {
            ItemView::User(_) => {},
            ItemView::Reply(r) => lemma_reply_roundtrip(r),
            ItemView::Plan(p) => {
                match p.reasoning {
                    Some(x) => lemma_reasoning_roundtrip(x.content),
                    None => {},
                }
                assert forall|j: int| 0 <= j < p.outcomes.len() implies outcome_data_of(
                    shown_outcome(#[trigger] p.outcomes[j]),
                ) == p.outcomes[j] by {
                    lemma_outcome_roundtrip(p.outcomes[j]);
                }
                assert(p.outcomes.map_values(|o: OutcomeView| shown_outcome(o)).map_values(
                    |o: ShownOutcome| outcome_data_of(o),
                ) =~= p.outcomes);
            },
        }
    }
    assert(items.map_values(|i: ItemView| shown_item(i)).map_values(
        |i: ShownItem| item_data_of(i),
    ) =~= items);
}

} // verus!
