//! Chats: their items, the messages the assistant is sent for them, their
//! titles, and the list of saved chats.
pub mod legacy;
pub mod roundtrip;
pub mod schema;

use vstd::prelude::*;
use crate::assistant::{Message, MessageView, Reply, ReplyView, Token, TokenView};
use crate::model::{File, FileView};
use crate::plan::{Plan, PlanView, answers_of};
use crate::text;

verus! {

/// The identifier of a chat (a UUID, as a 128-bit number).
#[derive(Debug, Clone, Copy, PartialEq, Eq, Structural)]
pub struct Id(pub u128);

/// The lowercase hexadecimal digit for `d < 16`.
pub open spec fn hex_digit(d: u128) -> char {
    if d < 10 {
        ((d + 48) as u8) as char
    } else {
        ((d + 87) as u8) as char
    }
}

/// The value of a hexadecimal digit, either case.
pub open spec fn hex_value(c: char) -> Option<u128> {
    if '0' <= c && c <= '9' {
        Some(((c as u32) - 48) as u128)
    } else if 'a' <= c && c <= 'f' {
        Some(((c as u32) - 87) as u128)
    } else if 'A' <= c && c <= 'F' {
        Some(((c as u32) - 55) as u128)
    } else {
        None
    }
}

/// The `k`-th hexadecimal digit of `n` (most significant first, `k < 32`).
pub open spec fn nibble(n: u128, k: int) -> u128 {
    (n >> ((4 * (31 - k)) as u128)) & 15
}

/// The position in the hyphenated form of the `k`-th digit.
pub open spec fn digit_position(k: int) -> int {
    if k < 8 {
        k
    } else if k < 12 {
        k + 1
    } else if k < 16 {
        k + 2
    } else if k < 20 {
        k + 3
    } else {
        k + 4
    }
}

/// Whether `i` is the position of a hyphen in the hyphenated form.
pub open spec fn hyphen_at(i: int) -> bool {
    i == 8 || i == 13 || i == 18 || i == 23
}

/// `n` as a hyphenated UUID: 32 lowercase hexadecimal digits in groups of
/// 8, 4, 4, 4 and 12, separated by `-`.
pub open spec fn uuid_text(n: u128) -> Seq<char> {
    Seq::new(
        36,
        |i: int|
            if hyphen_at(i) {
                '-'
            } else {
                hex_digit(nibble(n, if i < 8 { i } else if i < 13 { i - 1 } else if i < 18 { i - 2 } else if i < 23 { i - 3 } else { i - 4 }))
            },
    )
}

/// The number whose hexadecimal digits are `digits`.
pub open spec fn digits_value(digits: Seq<u128>) -> int
    decreases digits.len(),
{
    if digits.len() == 0 {
        0
    } else {
        digits_value(digits.drop_last()) * 16 + digits.last()
    }
}

/// The number that a hyphenated UUID text stands for: 36 characters, hyphens
/// at the group boundaries and hexadecimal digits (either case) elsewhere.
pub open spec fn uuid_of(s: Seq<char>) -> Option<u128> {
    if s.len() == 36 && (forall|i: int|
        0 <= i < 36 ==> if hyphen_at(i) {
            s[i] == '-'
        } else {
            hex_value(#[trigger] s[i]) is Some
        }) {
        Some(
            digits_value(Seq::new(32, |k: int| hex_value(s[digit_position(k)])->0)) as u128,
        )
    } else {
        None
    }
}

proof fn lemma_nibble_step(n: u128, s: u128)
    requires
        s <= 124,
    ensures
        (n >> (s + 4)) * 16 + ((n >> s) & 15) == n >> s,
{
    assert((n >> (s + 4)) * 16 + ((n >> s) & 15) == n >> s) by (bit_vector)
        requires
            s <= 124,
    ;
}

/// Reading the digits of `n` back gives `n`.
proof fn lemma_digits_of(n: u128, k: int)
    requires
        0 <= k <= 32,
    ensures
        digits_value(Seq::new(k as nat, |j: int| nibble(n, j))) == n >> ((4 * (32 - k)) as u128),
    decreases k,
{
    let d = Seq::new(k as nat, |j: int| nibble(n, j));
    if k == 0 {
        assert(n >> 128u128 == 0) by (bit_vector);
    } else {
        lemma_digits_of(n, k - 1);
        assert(d.drop_last() == Seq::new((k - 1) as nat, |j: int| nibble(n, j)));
        lemma_nibble_step(n, (4 * (32 - k)) as u128);
    }
}

proof fn lemma_nibble_small(n: u128, s: u128)
    ensures
        (n >> s) & 15 < 16,
{
    assert((n >> s) & 15 < 16) by (bit_vector);
}

proof fn lemma_hex_roundtrip(d: u128)
    requires
        d < 16,
    ensures
        hex_value(hex_digit(d)) == Some(d),
{
}

/// The text of an identifier reads back as the identifier.
pub proof fn lemma_uuid_roundtrip(n: u128)
    ensures
        uuid_of(uuid_text(n)) == Some(n),
{
    let s = uuid_text(n);
    assert forall|i: int| 0 <= i < 36 implies if hyphen_at(i) {
        s[i] == '-'
    } else {
        hex_value(#[trigger] s[i]) is Some
    } by {
        if !hyphen_at(i) {
            let k = if i < 8 { i } else if i < 13 { i - 1 } else if i < 18 { i - 2 } else if i < 23 { i - 3 } else { i - 4 };
            lemma_nibble_small(n, (4 * (31 - k)) as u128);
            lemma_hex_roundtrip(nibble(n, k));
        }
    }
    let digits = Seq::new(32, |k: int| hex_value(s[digit_position(k)])->0);
    assert forall|k: int| 0 <= k < 32 implies digits[k] == nibble(n, k) by {
        lemma_nibble_small(n, (4 * (31 - k)) as u128);
        lemma_hex_roundtrip(nibble(n, k));
    }
    assert(digits =~= Seq::new(32, |k: int| nibble(n, k)));
    lemma_digits_of(n, 32);
    assert(n >> 0u128 == n) by (bit_vector);
}

fn hex_char(d: u128) -> (c: char)
    requires
        d < 16,
    ensures
        c == hex_digit(d),
{
    if d < 10 {
        ((d + 48) as u8) as char
    } else {
        ((d + 87) as u8) as char
    }
}

/// What `uuid::Uuid::try_parse` reads from a text: the UUID as a number, or
/// `None` where the text is no UUID.
pub uninterp spec fn parsed_uuid(s: Seq<char>) -> Option<u128>;

/// Reads a UUID with `uuid::Uuid::try_parse`, as a number (the bytes of the
/// UUID, most significant first, as `as_u128` gives them). Its result is
/// named `parsed_uuid`; as the `uuid` parser shows, a hyphenated text (36
/// characters, hyphens at the group boundaries, hexadecimal digits of either
/// case elsewhere) reads as the number its digits spell. What the other forms
/// (simple, braced, URN) read as is left to the name.
#[verifier::external_body]
fn try_parse_uuid(s: &str) -> (r: Option<u128>)
    ensures
        r == parsed_uuid(s@),
        uuid_of(s@) matches Some(n) ==> r == Some(n),
{
    match uuid::Uuid::try_parse(s) {
        Ok(u) => Some(u.as_u128()),
        Err(_) => None,
    }
}

/// The UUID that a text stands for: the number a hyphenated text spells,
/// and otherwise what `uuid` reads from it.
pub open spec fn id_of(s: Seq<char>) -> Option<u128> {
    match uuid_of(s) {
        Some(n) => Some(n),
        None => parsed_uuid(s),
    }
}

impl Id {
    /// The identifier as a hyphenated UUID.
    pub fn to_text(&self) -> (s: String)
        ensures
            s@ == uuid_text(self.0),
    {
        let n: u128 = self.0;
        let mut s = String::new();
        let mut i: usize = 0;
        let mut k: usize = 0;
        while i < 36
            invariant
                i <= 36,
                k == if i <= 8 { i as int } else if i <= 13 { i - 1 } else if i <= 18 { i - 2 } else if i <= 23 { i - 3 } else { i - 4 },
                s@ == uuid_text(n).take(i as int),
            decreases 36 - i,
        {
            if i == 8 || i == 13 || i == 18 || i == 23 {
                s.push('-');
            } else {
                let shift: u128 = (4 * (31 - k)) as u128;
                let d: u128 = (n >> shift) & 15;
                assert(d < 16) by (bit_vector)
                    requires
                        d == (n >> shift) & 15,
                ;
                s.push(hex_char(d));
                k += 1;
            }
            assert(s@ =~= uuid_text(n).take(i + 1));
            i += 1;
        }
        assert(uuid_text(n).take(36) =~= uuid_text(n));
        s
    }

    /// Reads a UUID in any form that `uuid` reads (hyphenated, simple,
    /// braced or URN).
    pub fn parse(s: &str) -> (r: Option<Id>)
        ensures
            r == match id_of(s@) {
                Some(n) => Some(Id(n)),
                None => None,
            },
    {
        match try_parse_uuid(s) {
            Some(n) => Some(Id(n)),
            None => None,
        }
    }
}

/// `n` as 32 lowercase hexadecimal digits (the simple form of a UUID).
pub open spec fn simple_text(n: u128) -> Seq<char> {
    Seq::new(32, |k: int| hex_digit(nibble(n, k)))
}

/// Whether `n` is a random (version 4, RFC 4122 variant) UUID.
pub open spec fn is_random_uuid(n: u128) -> bool {
    &&& (n >> 76u128) & 15 == 4
    &&& (n >> 62u128) & 3 == 2
}

/// A random UUID from `uuid::Uuid::new_v4`, as a number. As the `uuid`
/// source shows, the version digit is 4 and the variant bits are `10`; the
/// other bits come from the operating system's random number generator.
#[verifier::external_body]
fn new_v4() -> (n: u128)
    ensures
        is_random_uuid(n),
{
    uuid::Uuid::new_v4().as_u128()
}

impl Id {
    /// A new random identifier.
    pub fn generate() -> (id: Id)
        ensures
            is_random_uuid(id.0),
    {
        Id(new_v4())
    }

    /// The identifier as 32 lowercase hexadecimal digits.
    pub fn simple(&self) -> (s: String)
        ensures
            s@ == simple_text(self.0),
    {
        let n: u128 = self.0;
        let mut s = String::new();
        let mut k: usize = 0;
        while k < 32
            invariant
                k <= 32,
                s@ == simple_text(n).take(k as int),
            decreases 32 - k,
        {
            let shift: u128 = (4 * (31 - k)) as u128;
            let d: u128 = (n >> shift) & 15;
            assert(d < 16) by (bit_vector)
                requires
                    d == (n >> shift) & 15,
            ;
            s.push(hex_char(d));
            assert(s@ =~= simple_text(n).take(k + 1));
            k += 1;
        }
        assert(simple_text(n).take(32) =~= simple_text(n));
        s
    }

    /// The name of the file that holds the chat.
    pub fn file_name(&self) -> (s: String)
        ensures
            s@ == simple_text(self.0) + ".json"@,
    {
        let mut s = self.simple();
        s.append(".json");
        s
    }
}

/// Distinct chats are saved in distinct files.
pub proof fn lemma_file_names_distinct(a: Id, b: Id)
    requires
        a != b,
    ensures
        simple_text(a.0) + ".json"@ != simple_text(b.0) + ".json"@,
{
    if simple_text(a.0) + ".json"@ == simple_text(b.0) + ".json"@ {
        assert((simple_text(a.0) + ".json"@).take(32) =~= simple_text(a.0));
        assert((simple_text(b.0) + ".json"@).take(32) =~= simple_text(b.0));
        assert forall|k: int| 0 <= k < 32 implies nibble(a.0, k) == nibble(b.0, k) by {
            assert(simple_text(a.0)[k] == simple_text(b.0)[k]);
            lemma_nibble_small(a.0, (4 * (31 - k)) as u128);
            lemma_nibble_small(b.0, (4 * (31 - k)) as u128);
            lemma_hex_roundtrip(nibble(a.0, k));
            lemma_hex_roundtrip(nibble(b.0, k));
        }
        assert(Seq::new(32, |j: int| nibble(a.0, j)) =~= Seq::new(32, |j: int| nibble(b.0, j)));
        lemma_digits_of(a.0, 32);
        lemma_digits_of(b.0, 32);
        let x = a.0;
        let y = b.0;
        assert(x >> 0u128 == x) by (bit_vector);
        assert(y >> 0u128 == y) by (bit_vector);
    }
}

/// An item of a chat's history.
#[derive(Debug)]
pub enum Item {
    User(String),
    Reply(Reply),
    Plan(Plan),
}

/// The mathematical form of an [`Item`].
pub enum ItemView {
    User(Seq<char>),
    Reply(ReplyView),
    Plan(PlanView),
}

impl View for Item {
    type V = ItemView;

    open spec fn view(&self) -> ItemView {
        match self {
            Item::User(q) => ItemView::User(q@),
            Item::Reply(r) => ItemView::Reply(r@),
            Item::Plan(p) => ItemView::Plan(p@),
        }
    }
}

impl DeepView for Item {
    type V = ItemView;

    open spec fn deep_view(&self) -> ItemView {
        self@
    }
}

impl Clone for Item {
    fn clone(&self) -> (r: Self)
        ensures
            r@ == self@,
    {
        match self {
            Item::User(q) => Item::User(q.clone()),
            Item::Reply(r) => Item::Reply(r.clone()),
            Item::Plan(p) => Item::Plan(p.clone()),
        }
    }
}

/// A chat.
#[derive(Debug)]
pub struct Chat {
    pub id: Id,
    pub file: File,
    pub title: Option<String>,
    pub history: Vec<Item>,
}

/// The mathematical form of a [`Chat`].
pub struct ChatView {
    pub id: Id,
    pub file: FileView,
    pub title: Option<Seq<char>>,
    pub history: Seq<ItemView>,
}

impl View for Chat {
    type V = ChatView;

    open spec fn view(&self) -> ChatView {
        ChatView {
            id: self.id,
            file: self.file@,
            title: self.title.deep_view(),
            history: self.history.deep_view(),
        }
    }
}

/// What happens while the assistant completes a chat: a reply is added and
/// grows token by token, or a plan is added and runs.
#[derive(Debug)]
pub enum Event {
    ReplyAdded,
    ReplyChanged { reply: Reply, new_token: Token },
    PlanAdded,
    PlanChanged(crate::plan::Event),
}

/// The mathematical form of an [`Event`].
pub enum EventView {
    ReplyAdded,
    ReplyChanged { reply: ReplyView, new_token: TokenView },
    PlanAdded,
    PlanChanged(crate::plan::EventView),
}

impl View for Event {
    type V = EventView;

    open spec fn view(&self) -> EventView {
        match self {
            Event::ReplyAdded => EventView::ReplyAdded,
            Event::ReplyChanged { reply, new_token } => EventView::ReplyChanged {
                reply: reply@,
                new_token: new_token@,
            },
            Event::PlanAdded => EventView::PlanAdded,
            Event::PlanChanged(e) => EventView::PlanChanged(e@),
        }
    }
}

/// The system prompt of every conversation.
pub const SYSTEM_PROMPT: &'static str = "You are a helpful assistant.";

/// The request that asks the assistant for a title for the conversation.
pub const TITLE_REQUEST: &'static str = "Give me a short title for our conversation so far, without considering this interaction. Just the title between quotes; don't say anything else.";

/// How the assistant answers: directly, or by searching the web first.
#[derive(Debug, Clone, Copy, Default, PartialEq, Eq, Structural)]
pub struct Strategy {
    pub search: bool,
}

/// The messages that an item contributes to the conversation: a user's
/// query, a reply's content, or the contents of a plan's finished answers.
pub open spec fn messages_of(item: ItemView) -> Seq<MessageView> {
    match item {
        ItemView::User(q) => seq![MessageView::User(q)],
        ItemView::Reply(r) => seq![MessageView::Assistant(r.content)],
        ItemView::Plan(p) => answers_of(p.outcomes).map_values(
            |r: ReplyView| MessageView::Assistant(r.content),
        ),
    }
}

/// The conversation that `items` make, in order.
pub open spec fn history_of(items: Seq<ItemView>) -> Seq<MessageView>
    decreases items.len(),
{
    if items.len() == 0 {
        Seq::empty()
    } else {
        history_of(items.drop_last()) + messages_of(items.last())
    }
}

/// The conversation of a history is that of its first part followed by that
/// of the rest: every item speaks, in order.
pub proof fn lemma_history_concat(a: Seq<ItemView>, b: Seq<ItemView>)
    ensures
        history_of(a + b) == history_of(a) + history_of(b),
    decreases b.len(),
{
    if b.len() == 0 {
        assert(a + b =~= a);
        assert(history_of(a) + history_of(b) =~= history_of(a));
    } else {
        lemma_history_concat(a, b.drop_last());
        assert((a + b).drop_last() =~= a + b.drop_last());
        assert((a + b).last() == b.last());
        assert(history_of(a) + history_of(b) =~= history_of(a) + history_of(b.drop_last())
            + messages_of(b.last()));
    }
}

/// A user's message is one message of the user with its text; a reply is
/// one message of the assistant with the reply's content.
pub proof fn lemma_history_of_one(item: ItemView)
    ensures
        item matches ItemView::User(q) ==> history_of(seq![item]) == seq![MessageView::User(q)],
        item matches ItemView::Reply(r) ==> history_of(seq![item]) == seq![
            MessageView::Assistant(r.content),
        ],
{
    let one = seq![item];
    assert(one.drop_last() =~= Seq::<ItemView>::empty());
    assert(history_of(Seq::<ItemView>::empty()) == Seq::<MessageView>::empty());
    assert(history_of(one) =~= messages_of(item));
}

/// The conversation that `items` make, as messages for the assistant.
pub fn history(items: &[Item]) -> (messages: Vec<Message>)
    ensures
        messages@.map_values(|m: Message| m@) == history_of(items@.map_values(|i: Item| i@)),
{
    let ghost views = items@.map_values(|i: Item| i@);
    let mut messages: Vec<Message> = Vec::new();
    let mut i: usize = 0;
    while i < items.len()
        invariant
            i <= items@.len(),
            views == items@.map_values(|i: Item| i@),
            messages@.map_values(|m: Message| m@) == history_of(views.take(i as int)),
        decreases items@.len() - i,
    {
        proof {
            assert(views.take(i + 1).drop_last() == views.take(i as int));
            assert(views.take(i + 1).last() == items@[i as int]@);
        }
        let ghost before = messages@.map_values(|m: Message| m@);
        match &items[i] {
            Item::User(query) => {
                messages.push(Message::User(query.clone()));
                assert(messages@.map_values(|m: Message| m@) =~= before + seq![MessageView::User(query@)]);
            },
            Item::Reply(reply) => {
                messages.push(Message::Assistant(reply.content.clone()));
                assert(messages@.map_values(|m: Message| m@) =~= before + seq![MessageView::Assistant(reply.content@)]);
            },
            Item::Plan(plan) => {
                let answers = plan.answers();
                let ghost added = answers_of(plan@.outcomes).map_values(
                    |r: ReplyView| MessageView::Assistant(r.content),
                );
                let mut k: usize = 0;
                while k < answers.len()
                    invariant
                        k <= answers@.len(),
                        answers@.map_values(|r: &Reply| r@) == answers_of(plan@.outcomes),
                        added == answers_of(plan@.outcomes).map_values(
                            |r: ReplyView| MessageView::Assistant(r.content),
                        ),
                        messages@.map_values(|m: Message| m@) == before + added.take(k as int),
                    decreases answers@.len() - k,
                {
                    let ghost mid = messages@.map_values(|m: Message| m@);
                    assert(added[k as int] == MessageView::Assistant(answers@[k as int]@.content));
                    messages.push(Message::Assistant(answers[k].content.clone()));
                    assert(messages@.map_values(|m: Message| m@) =~= mid.push(added[k as int]));
                    assert(added.take(k + 1) =~= added.take(k as int).push(added[k as int]));
                    k += 1;
                }
                assert(added.take(k as int) =~= added);
            },
        }
        i += 1;
    }
    assert(views.take(i as int) =~= views);
    messages
}

/// `title` without surrounding whitespace and quotes.
pub open spec fn sanitized(title: Seq<char>) -> Seq<char> {
    text::trimmed_of(text::trimmed(title), '"')
}

/// `title` without surrounding whitespace and quotes.
pub fn sanitize(title: &str) -> (s: String)
    ensures
        s@ == sanitized(title@),
{
    let t = text::trim(title);
    text::trim_matches(t.as_str(), '"')
}

/// The title once `token` arrives: talking tokens extend it, and once it is
/// longer than 80 bytes every token adds an ellipsis.
pub open spec fn title_after(title: Seq<char>, token: TokenView) -> Seq<char> {
    let extended = match token {
        TokenView::Talking(t) => title + t,
        TokenView::Reasoning(_) => title,
    };
    if text::utf8_len(extended) > 80 {
        extended + "..."@
    } else {
        extended
    }
}

/// A talking token adds its text to the title and a reasoning token adds
/// nothing; once the title passes 80 bytes of UTF-8, each token also adds an
/// ellipsis.
pub proof fn lemma_title_tokens(title: Seq<char>, t: Seq<char>)
    ensures
        text::utf8_len(title + t) <= 80 ==> title_after(title, TokenView::Talking(t)) == title + t,
        text::utf8_len(title + t) > 80 ==> title_after(title, TokenView::Talking(t)) == title + t + "..."@,
        text::utf8_len(title) <= 80 ==> title_after(title, TokenView::Reasoning(t)) == title,
        text::utf8_len(title) > 80 ==> title_after(title, TokenView::Reasoning(t)) == title + "..."@,
{
}

/// A title being suggested by the assistant, token by token.
pub struct TitleDraft {
    title: String,
}

impl View for TitleDraft {
    type V = Seq<char>;

    closed spec fn view(&self) -> Seq<char> {
        self.title@
    }
}

impl TitleDraft {
    /// An empty draft.
    pub fn new() -> (d: TitleDraft)
        ensures
            d@ == Seq::<char>::empty(),
    {
        TitleDraft { title: String::new() }
    }

    /// Takes in `token` and returns the title so far, sanitized.
    pub fn push(&mut self, token: &Token) -> (title: String)
        ensures
            final(self)@ == title_after(old(self)@, token@),
            title@ == sanitized(final(self)@),
    {
        match token {
            Token::Talking(t) => self.title.append(t.as_str()),
            Token::Reasoning(_) => {},
        }
        if text::utf8_longer_than(self.title.as_str(), 80) {
            self.title.append("...");
        }
        sanitize(self.title.as_str())
    }

    /// The final title, sanitized.
    pub fn finish(&self) -> (title: String)
        ensures
            title@ == sanitized(self@),
    {
        sanitize(self.title.as_str())
    }
}

/// A saved chat, as the list of chats shows it.
#[derive(Debug)]
pub struct Entry {
    pub id: Id,
    pub file: File,
    pub title: Option<String>,
}

/// The mathematical form of an [`Entry`].
pub struct EntryView {
    pub id: Id,
    pub file: FileView,
    pub title: Option<Seq<char>>,
}

impl View for Entry {
    type V = EntryView;

    open spec fn view(&self) -> EntryView {
        EntryView { id: self.id, file: self.file@, title: self.title.deep_view() }
    }
}

impl DeepView for Entry {
    type V = EntryView;

    open spec fn deep_view(&self) -> EntryView {
        self@
    }
}

impl Clone for Entry {
    fn clone(&self) -> (r: Self)
        ensures
            r@ == self@,
    {
        Entry { id: self.id, file: self.file.clone(), title: crate::assistant::clone_text(&self.title) }
    }
}

/// The entries without those of chat `id`, in order.
pub open spec fn without_chat(entries: Seq<EntryView>, id: Id) -> Seq<EntryView> {
    entries.filter(|e: EntryView| e.id != id)
}

/// Index of the first entry of chat `id`, if any.
pub open spec fn first_entry_of(entries: Seq<EntryView>, id: Id) -> Option<int> {
    if exists|i: int| 0 <= i < entries.len() && entries[i].id == id {
        Some(
            choose|i: int|
                0 <= i < entries.len() && entries[i].id == id && forall|j: int|
                    0 <= j < i ==> entries[j].id != id,
        )
    } else {
        None
    }
}

proof fn lemma_keep_all(entries: Seq<EntryView>, id: Id)
    requires
        forall|i: int| 0 <= i < entries.len() ==> entries[i].id != id,
    ensures
        without_chat(entries, id) == entries,
    decreases entries.len(),
{
    reveal(Seq::filter);
    if entries.len() > 0 {
        lemma_keep_all(entries.drop_last(), id);
        assert(entries.drop_last().push(entries.last()) =~= entries);
    }
}

/// Once chat `id` is removed, no entry of the list is for it.
pub proof fn lemma_removed_is_gone(entries: Seq<EntryView>, id: Id)
    ensures
        forall|i: int|
            0 <= i < without_chat(entries, id).len() ==> without_chat(entries, id)[i].id != id,
{
    assert forall|i: int| 0 <= i < without_chat(entries, id).len() implies without_chat(
        entries,
        id,
    )[i].id != id by {
        entries.lemma_filter_pred(|e: EntryView| e.id != id, i);
    }
}

/// Removing a chat that was just put first gives back the list as it was,
/// when the list had no entry for that chat.
pub proof fn lemma_push_then_remove(entries: Seq<EntryView>, entry: EntryView)
    requires
        forall|i: int| 0 <= i < entries.len() ==> entries[i].id != entry.id,
    ensures
        without_chat(seq![entry] + entries, entry.id) == entries,
{
    let pred = |e: EntryView| e.id != entry.id;
    Seq::filter_distributes_over_add(seq![entry], entries, pred);
    reveal(Seq::filter);
    assert(seq![entry].drop_last() =~= Seq::<EntryView>::empty());
    assert(Seq::<EntryView>::empty().filter(pred) =~= Seq::<EntryView>::empty());
    assert(seq![entry].last() == entry);
    assert(seq![entry].filter(pred) =~= Seq::<EntryView>::empty());
    lemma_keep_all(entries, entry.id);
    assert(Seq::<EntryView>::empty() + entries =~= entries);
}

/// The entries with the first entry of chat `id`, if any, retitled.
pub open spec fn retitled(entries: Seq<EntryView>, id: Id, title: Option<Seq<char>>) -> Seq<
    EntryView,
> {
    match first_entry_of(entries, id) {
        Some(i) => entries.update(i, EntryView { title, ..entries[i] }),
        None => entries,
    }
}

proof fn lemma_first_entry_exists(entries: Seq<EntryView>, id: Id, k: int)
    requires
        0 <= k < entries.len(),
        entries[k].id == id,
    ensures
        exists|i: int|
            0 <= i < entries.len() && entries[i].id == id && forall|j: int|
                0 <= j < i ==> entries[j].id != id,
    decreases k,
{
    if exists|j: int| 0 <= j < k && entries[j].id == id {
        let j = choose|j: int| 0 <= j < k && entries[j].id == id;
        lemma_first_entry_exists(entries, id, j);
    } else {
        assert(forall|j: int| 0 <= j < k ==> entries[j].id != id);
    }
}

/// Retitling chat `id` keeps every entry in place with its id and file,
/// leaves the entries of other chats as they were, and gives the entry of
/// chat `id` (its first, should there be several) the new title.
pub proof fn lemma_retitled(entries: Seq<EntryView>, id: Id, title: Option<Seq<char>>)
    ensures
        retitled(entries, id, title).len() == entries.len(),
        forall|i: int| 0 <= i < entries.len() ==> (#[trigger] retitled(entries, id, title)[i]).id
            == entries[i].id && retitled(entries, id, title)[i].file == entries[i].file,
        forall|i: int| 0 <= i < entries.len() && entries[i].id != id ==> #[trigger] retitled(
            entries,
            id,
            title,
        )[i] == entries[i],
        (exists|i: int| 0 <= i < entries.len() && entries[i].id == id) ==> exists|i: int|
            0 <= i < entries.len() && (#[trigger] retitled(entries, id, title)[i]).id == id
                && retitled(entries, id, title)[i].title == title,
{
    if exists|i: int| 0 <= i < entries.len() && entries[i].id == id {
        let k = choose|i: int| 0 <= i < entries.len() && entries[i].id == id;
        lemma_first_entry_exists(entries, id, k);
        let f = first_entry_of(entries, id)->0;
        assert(retitled(entries, id, title)[f].title == title);
    }
}

/// The list of saved chats, most recent first.
#[derive(Debug)]
pub struct List {
    pub entries: Vec<Entry>,
}

impl View for List {
    type V = Seq<EntryView>;

    open spec fn view(&self) -> Seq<EntryView> {
        self.entries.deep_view()
    }
}

impl List {
    /// An empty list.
    pub fn new() -> (l: List)
        ensures
            l@ == Seq::<EntryView>::empty(),
    {
        let l = List { entries: Vec::new() };
        assert(l@ =~= Seq::<EntryView>::empty());
        l
    }

    /// Puts `entry` first.
    pub fn push(&mut self, entry: Entry)
        ensures
            final(self)@ == seq![entry@] + old(self)@,
    {
        let ghost e = entry@;
        self.entries.insert(0, entry);
        assert(self@ =~= seq![e] + old(self)@);
    }

    /// Drops the entries of chat `id`.
    pub fn remove(&mut self, id: Id)
        ensures
            final(self)@ == without_chat(old(self)@, id),
    {
        let ghost all = self@;
        let mut kept: Vec<Entry> = Vec::new();
        let mut i: usize = 0;
        while i < self.entries.len()
            invariant
                i <= self.entries.len(),
                self@ == all,
                kept.deep_view() == without_chat(all.take(i as int), id),
            decreases self.entries.len() - i,
        {
            assert(all.take(i + 1).drop_last() =~= all.take(i as int));
            assert(all.take(i + 1).last() == all[i as int]);
            proof {
                reveal(Seq::filter);
            }
            if self.entries[i].id != id {
                let ghost before = kept.deep_view();
                kept.push(self.entries[i].clone());
                assert(kept.deep_view() =~= before.push(all[i as int]));
            }
            i += 1;
        }
        assert(all.take(i as int) =~= all);
        self.entries = kept;
    }

    /// Gives the first entry of chat `id`, if any, the title `title`.
    pub fn retitle(&mut self, id: Id, title: Option<String>)
        ensures
            final(self)@ == retitled(old(self)@, id, title.deep_view()),
    {
        let ghost all = self@;
        let mut i: usize = 0;
        while i < self.entries.len() && self.entries[i].id != id
            invariant
                i <= self.entries.len(),
                self@ == all,
                forall|j: int| 0 <= j < i ==> all[j].id != id,
            decreases self.entries.len() - i,
        {
            i += 1;
        }
        if i < self.entries.len() {
            proof {
                let k = choose|k: int|
                    0 <= k < all.len() && all[k].id == id && forall|j: int|
                        0 <= j < k ==> all[j].id != id;
                assert(0 <= i < all.len() && all[i as int].id == id && forall|j: int|
                    0 <= j < i ==> all[j].id != id);
                assert(k == i);
            }
            let entry = Entry { id, file: self.entries[i].file.clone(), title };
            self.entries.set(i, entry);
            assert(self@ =~= retitled(all, id, title.deep_view()));
        }
    }
}

/// What becomes of the last opened chat once a chat is deleted.
#[derive(Debug, Clone, Copy, PartialEq, Eq, Structural)]
pub enum LastOpened {
    /// It stays as it was.
    Keep,
    /// It becomes this chat.
    Open(Id),
    /// There is no last opened chat any more.
    Clear,
}

/// When the deleted chat was the last opened one, the first remaining chat
/// becomes the last opened one, or none if there is none left.
pub open spec fn last_opened_after(deleted: Id, last_opened: Option<Id>, first: Option<Id>) -> LastOpened {
    match last_opened {
        Some(last) if last == deleted => match first {
            Some(f) => LastOpened::Open(f),
            None => LastOpened::Clear,
        },
        _ => LastOpened::Keep,
    }
}

/// What becomes of the last opened chat once chat `deleted` is deleted,
/// given the last opened chat (if it could be read) and the remaining list
/// (if it could be read).
pub fn after_delete(deleted: Id, last_opened: Option<Id>, remaining: Option<&List>) -> (r: LastOpened)
    ensures
        r == last_opened_after(
            deleted,
            last_opened,
            match remaining {
                Some(list) if list@.len() > 0 => Some(list@[0].id),
                _ => None,
            },
        ),
{
    match last_opened {
        Some(last) if last == deleted => {
            match remaining {
                Some(list) if list.entries.len() > 0 => LastOpened::Open(list.entries[0].id),
                _ => LastOpened::Clear,
            }
        },
        _ => LastOpened::Keep,
    }
}

} // verus!
