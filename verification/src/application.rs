//! The chat application's state and how it reacts: to keys, to provider
//! events, and the arithmetic of its layout.

use vstd::prelude::*;

use crate::command;
use crate::domain::{ChatRequest, Message, MessageRole, Model, Provider, Session};
use crate::log::TermColor;
use crate::provider::{
    default_model_spec, is_llama_cpp_name, provider_name_for, selects_provider, LocalProvider,
    ProviderSettings,
};
use crate::text::{
    chars_of, decimal, decimal_spec, lemma_views_of_push, push_char, str_eq, to_ascii_lowercase_spec,
    lowercase_chars, trim, trim_spec, views_of,
};
use vstd::string::{StrSliceExecFns, StringExecFns};

verus! {

/// The tabs of the devtools pane.
#[derive(Clone, Copy, Debug, PartialEq, Eq, Structural)]
pub enum DevtoolsTab {
    Logs,
    Requests,
}

impl DevtoolsTab {
    /// The other tab.
    pub fn toggle(self) -> (t: Self)
        ensures
            t != self,
    {
        match self {
            DevtoolsTab::Logs => DevtoolsTab::Requests,
            DevtoolsTab::Requests => DevtoolsTab::Logs,
        }
    }
}

/// A duration in milliseconds as shown in the request log, or `pending`.
pub open spec fn format_duration_spec(ms: Option<u128>) -> Seq<char> {
    match ms {
        Some(v) => decimal_spec(v as nat) + "ms"@,
        None => "pending"@,
    }
}

/// A duration in milliseconds as shown in the request log, or `pending`.
pub fn format_duration(ms: Option<u128>) -> (s: String)
    ensures
        s@ == format_duration_spec(ms),
{
    match ms {
        Some(v) => decimal(v).concat("ms"),
        None => String::from_str("pending"),
    }
}

/// One request sent to a provider, as the request log shows it.
pub struct RequestLog {
    pub method: &'static str,
    pub url: String,
    pub model: String,
    pub status: Option<u16>,
    pub initial_response_time_ms: Option<u128>,
    pub total_time_ms: Option<u128>,
    pub error: Option<String>,
}

/// The outcome column of a request log line: the status, else the error,
/// else `UNKNOWN`.
pub open spec fn request_outcome_spec(status: Option<u16>, error: Option<Seq<char>>) -> Seq<char> {
    match status {
        Some(s) => decimal_spec(s as nat),
        None => match error {
            Some(e) => "ERROR "@ + e,
            None => "UNKNOWN"@,
        },
    }
}

impl RequestLog {
    /// The error as characters.
    pub open spec fn error_view(&self) -> Option<Seq<char>> {
        match self.error {
            Some(e) => Some(e@),
            None => None,
        }
    }

    /// The line of the request log that shows this request.
    pub open spec fn line_spec(&self) -> Seq<char> {
        self.method@ + " "@ + self.url@ + " "@ + request_outcome_spec(self.status, self.error_view())
            + " "@ + self.model@ + " initial: "@ + format_duration_spec(self.initial_response_time_ms)
            + " total: "@ + format_duration_spec(self.total_time_ms)
    }

    /// The line of the request log that shows this request.
    pub fn line(&self) -> (s: String)
        ensures
            s@ == self.line_spec(),
    {
        let outcome = match self.status {
            Some(status) => decimal(status as u128),
            None => match &self.error {
                Some(error) => String::from_str("ERROR ").concat(error.as_str()),
                None => String::from_str("UNKNOWN"),
            },
        };
        String::from_str(self.method).concat(" ").concat(self.url.as_str()).concat(" ").concat(
            outcome.as_str(),
        ).concat(" ").concat(self.model.as_str()).concat(" initial: ").concat(
            format_duration(self.initial_response_time_ms).as_str(),
        ).concat(" total: ").concat(format_duration(self.total_time_ms).as_str())
    }
}

/// What a menu chooses.
#[derive(Clone, Copy, Debug, PartialEq, Eq, Structural)]
pub enum MenuKind {
    Provider,
    Model,
}

/// A menu of names with one selected.
pub struct Menu {
    pub kind: MenuKind,
    pub title: &'static str,
    pub items: Vec<String>,
    pub selected: usize,
}

/// `items` with `item` added at the end, unless it is empty or already
/// there.
pub open spec fn push_menu_item_spec(items: Seq<Seq<char>>, item: Seq<char>) -> Seq<Seq<char>> {
    if item.len() == 0 || items.contains(item) {
        items
    } else {
        items.push(item)
    }
}

/// Adds `item` at the end of `items`, unless it is empty or already there.
pub fn push_menu_item(items: &mut Vec<String>, item: &str)
    ensures
        views_of(final(items)@) == push_menu_item_spec(views_of(old(items)@), item@),
{
    if item.is_empty() {
        return;
    }
    let n = items.len();
    let mut i: usize = 0;
    while i < n
        invariant
            n == items@.len(),
            i <= n,
            forall|k: int| 0 <= k < i ==> items@[k]@ != item@,
        decreases n - i,
    {
        if str_eq(items[i].as_str(), item) {
            assert(views_of(items@)[i as int] == item@);
            return;
        }
        i = i + 1;
    }
    assert(!views_of(items@).contains(item@)) by {
        assert forall|k: int| 0 <= k < views_of(items@).len() implies views_of(items@)[k]
            != item@ by {
            assert(views_of(items@)[k] == items@[k]@);
        }
    }
    let s = String::from_str(item);
    proof {
        lemma_views_of_push(items@, s);
    }
    items.push(s);
}

/// Whether two names are equal ignoring ASCII case.
pub open spec fn eq_ignore_ascii_case_spec(a: Seq<char>, b: Seq<char>) -> bool {
    to_ascii_lowercase_spec(a) == to_ascii_lowercase_spec(b)
}

/// The names the provider menu offers.
pub open spec fn provider_menu_items() -> Seq<Seq<char>> {
    seq!["Ollama"@, "llama.cpp"@]
}

/// The items of the model menu: the current model, the provider's default
/// model, then the discovered models, each non-empty name once.
pub open spec fn model_menu_items_spec(current: Seq<char>, default: Seq<char>, models: Seq<Seq<char>>) -> Seq<
    Seq<char>,
>
    decreases models.len(),
{
    if models.len() == 0 {
        push_menu_item_spec(push_menu_item_spec(Seq::empty(), current), default)
    } else {
        push_menu_item_spec(
            model_menu_items_spec(current, default, models.drop_last()),
            models.last(),
        )
    }
}

/// Whether menu items are all non-empty and all different.
pub open spec fn distinct_names(items: Seq<Seq<char>>) -> bool {
    &&& forall|i: int| 0 <= i < items.len() ==> (#[trigger] items[i]).len() > 0
    &&& forall|i: int, j: int| 0 <= i < j < items.len() ==> items[i] != items[j]
}

/// Adding an item keeps the items non-empty and different, keeps the items
/// already there in place, and adds the item exactly when it is non-empty
/// and new.
proof fn lemma_push_menu_item(items: Seq<Seq<char>>, item: Seq<char>)
    requires
        distinct_names(items),
    ensures
        distinct_names(push_menu_item_spec(items, item)),
        push_menu_item_spec(items, item).take(items.len() as int) == items,
        forall|x: Seq<char>|
            #[trigger] push_menu_item_spec(items, item).contains(x) <==> (items.contains(x) || (x
                == item && item.len() > 0)),
{
    let r = push_menu_item_spec(items, item);
    assert(r.take(items.len() as int) =~= items);
    assert forall|x: Seq<char>| #[trigger] r.contains(x) implies (items.contains(x) || (x == item
        && item.len() > 0)) by {
        let k = choose|k: int| 0 <= k < r.len() && r[k] == x;
        if k < items.len() {
            assert(items[k] == x);
        }
    }
    assert forall|x: Seq<char>| (items.contains(x) || (x == item && item.len() > 0)) implies #[trigger] r.contains(
        x,
    ) by {
        if items.contains(x) {
            let k = choose|k: int| 0 <= k < items.len() && items[k] == x;
            assert(r[k] == x);
        } else if !items.contains(item) {
            assert(r[items.len() as int] == x);
        }
    }
}

/// The model menu offers each non-empty name among the current model, the
/// provider's default model and the discovered models exactly once, and
/// nothing else; the current model, when it has a name, comes first.
pub proof fn lemma_model_menu_items(current: Seq<char>, default: Seq<char>, models: Seq<Seq<char>>)
    ensures
        distinct_names(model_menu_items_spec(current, default, models)),
        forall|x: Seq<char>|
            #[trigger] model_menu_items_spec(current, default, models).contains(x) <==> (x.len() > 0
                && (x == current || x == default || models.contains(x))),
        current.len() > 0 ==> model_menu_items_spec(current, default, models)[0] == current,
    decreases models.len(),
{
    let empty = Seq::<Seq<char>>::empty();
    if models.len() == 0 {
        lemma_push_menu_item(empty, current);
        let one = push_menu_item_spec(empty, current);
        lemma_push_menu_item(one, default);
        let two = push_menu_item_spec(one, default);
        assert forall|x: Seq<char>| #[trigger] two.contains(x) <==> (x.len() > 0 && (x == current
            || x == default || models.contains(x))) by {
            assert(one.contains(x) <==> (empty.contains(x) || (x == current && current.len() > 0)));
        }
        if current.len() > 0 {
            assert(one[0] == current);
            assert(two.take(one.len() as int)[0] == two[0]);
        }
    } else {
        let init = models.drop_last();
        lemma_model_menu_items(current, default, init);
        let prev = model_menu_items_spec(current, default, init);
        lemma_push_menu_item(prev, models.last());
        let r = model_menu_items_spec(current, default, models);
        assert forall|x: Seq<char>| #[trigger] r.contains(x) <==> (x.len() > 0 && (x == current
            || x == default || models.contains(x))) by {
            assert(prev.contains(x) <==> (x.len() > 0 && (x == current || x == default
                || init.contains(x))));
            if init.contains(x) {
                let k = choose|k: int| 0 <= k < init.len() && init[k] == x;
                assert(models[k] == x);
            }
            if models.contains(x) && x != models.last() {
                let k = choose|k: int| 0 <= k < models.len() && models[k] == x;
                assert(init[k] == x);
            }
        }
        if current.len() > 0 {
            assert(prev.contains(current));
            assert(r.take(prev.len() as int)[0] == r[0]);
        }
    }
}

impl Menu {
    /// The menu's invariant: an item is selected whenever there is one.
    pub open spec fn wf(&self) -> bool {
        self.selected < self.items@.len() || (self.items@.len() == 0 && self.selected == 0)
    }

    /// The provider menu, with the current provider selected (ignoring ASCII
    /// case), or the first item when it is not offered.
    pub fn provider(current_provider: &Provider) -> (m: Menu)
        ensures
            m.kind == MenuKind::Provider,
            m.title@ == "Choose Provider"@,
            views_of(m.items@) == provider_menu_items(),
            m.selected == (if eq_ignore_ascii_case_spec(provider_menu_items()[0], current_provider.name@) {
                0usize
            } else if eq_ignore_ascii_case_spec(provider_menu_items()[1], current_provider.name@) {
                1usize
            } else {
                0usize
            }),
            m.wf(),
    {
        let mut items: Vec<String> = Vec::new();
        let a = String::from_str("Ollama");
        let b = String::from_str("llama.cpp");
        proof {
            lemma_views_of_push(items@, a);
        }
        items.push(a);
        proof {
            lemma_views_of_push(items@, b);
        }
        items.push(b);
        assert(views_of(items@) =~= provider_menu_items());
        let current = lowercase_chars(current_provider.name.as_str());
        let first = lowercase_chars("Ollama");
        let second = lowercase_chars("llama.cpp");
        let selected: usize = if crate::text::chars_eq(first.as_slice(), current.as_slice()) {
            0
        } else if crate::text::chars_eq(second.as_slice(), current.as_slice()) {
            1
        } else {
            0
        };
        Menu { kind: MenuKind::Provider, title: "Choose Provider", items, selected }
    }

    /// The model menu for the current provider and model and the discovered
    /// models, with the first item selected.
    pub fn model(
        current_provider: &Provider,
        current_model: &Model,
        models: Vec<Model>,
        settings: &ProviderSettings,
    ) -> (m: Menu)
        ensures
            m.kind == MenuKind::Model,
            m.title@ == "Choose Model"@,
            views_of(m.items@) == model_menu_items_spec(
                current_model.name@,
                default_model_spec(current_provider.name@, *settings),
                crate::provider::model_names(models@),
            ),
            m.selected == 0,
            m.wf(),
    {
        let default_model = LocalProvider::default_model_for(
            current_provider.name.as_str(),
            settings,
        );
        let ghost names = crate::provider::model_names(models@);
        let mut items: Vec<String> = Vec::new();
        assert(views_of(items@) =~= Seq::<Seq<char>>::empty());
        push_menu_item(&mut items, current_model.name.as_str());
        push_menu_item(&mut items, default_model.name.as_str());
        let n = models.len();
        let mut i: usize = 0;
        assert(names.take(0) =~= Seq::<Seq<char>>::empty());
        while i < n
            invariant
                n == models@.len(),
                names == crate::provider::model_names(models@),
                i <= n,
                views_of(items@) == model_menu_items_spec(
                    current_model.name@,
                    default_model.name@,
                    names.take(i as int),
                ),
            decreases n - i,
        {
            push_menu_item(&mut items, models[i].name.as_str());
            proof {
                assert(names.take(i + 1).drop_last() =~= names.take(i as int));
                assert(names.take(i + 1).last() == models@[i as int].name@);
            }
            i = i + 1;
        }
        assert(names.take(n as int) =~= names);
        Menu { kind: MenuKind::Model, title: "Choose Model", items, selected: 0 }
    }

    /// Selects the previous item, staying at the first.
    pub fn previous(&mut self)
        requires
            old(self).wf(),
        ensures
            final(self).selected == (if old(self).selected == 0 {
                0
            } else {
                old(self).selected - 1
            }),
            final(self).kind == old(self).kind,
            final(self).title == old(self).title,
            final(self).items == old(self).items,
            final(self).wf(),
    {
        self.selected = self.selected.saturating_sub(1);
    }

    /// Selects the next item, staying at the last.
    pub fn next(&mut self)
        requires
            old(self).wf(),
        ensures
            final(self).selected == (if old(self).items@.len() == 0 {
                0
            } else if old(self).selected + 1 < old(self).items@.len() {
                old(self).selected + 1
            } else {
                old(self).items@.len() - 1
            }),
            final(self).kind == old(self).kind,
            final(self).title == old(self).title,
            final(self).items == old(self).items,
            final(self).wf(),
    {
        let last = self.items.len().saturating_sub(1);
        let next = self.selected + 1;
        self.selected = if next < last {
            next
        } else {
            last
        };
    }
}

/// The number of rows a piece of text of `n` characters takes when wrapped
/// at `width` columns (an empty piece takes one row).
pub open spec fn wrapped_rows(n: nat, width: nat) -> nat {
    (if n == 0 {
        0
    } else {
        (n - 1) as nat
    }) / width + 1
}

/// The rows of the finished lines of `text` and the length of its last
/// line, when wrapped at `width` columns.
pub open spec fn wrap_fold(text: Seq<char>, width: nat) -> (nat, nat)
    decreases text.len(),
{
    if text.len() == 0 {
        (0, 0)
    } else {
        let (rows, cur) = wrap_fold(text.drop_last(), width);
        if text.last() == '\n' {
            (rows + wrapped_rows(cur, width), 0)
        } else {
            (rows, cur + 1)
        }
    }
}

/// The number of rows `text` takes when each of its lines is wrapped at
/// `width` columns (at least 1), capped at `u16::MAX`.
pub open spec fn wrapped_line_count_spec(text: Seq<char>, width: u16) -> u16 {
    let w: nat = if width == 0 {
        1
    } else {
        width as nat
    };
    let (rows, cur) = wrap_fold(text, w);
    let total = rows + wrapped_rows(cur, w);
    if total > u16::MAX {
        u16::MAX
    } else {
        total as u16
    }
}

/// The number of rows `text` takes when each of its lines is wrapped at
/// `width` columns (at least 1), capped at `u16::MAX`.
pub fn wrapped_line_count(text: &str, width: u16) -> (r: u16)
    ensures
        r == wrapped_line_count_spec(text@, width),
        r >= 1,
{
    let w: u64 = if width == 0 {
        1
    } else {
        width as u64
    };
    let ghost wn: nat = w as nat;
    let cs = chars_of(text);
    let n = cs.len();
    let cap: u128 = 0x10000;
    let mut rows: u128 = 0;
    let mut cur: u64 = 0;
    let mut i: usize = 0;
    assert(text@.take(0) =~= Seq::<char>::empty());
    while i < n
        invariant
            n == cs@.len(),
            cs@ == text@,
            i <= n,
            w == wn,
            wn >= 1,
            cap == 0x10000,
            cur <= i,
            n <= usize::MAX,
            ({
                let (r, c) = wrap_fold(text@.take(i as int), wn);
                &&& rows == (if r > cap { cap as nat } else { r })
                &&& cur == c
            }),
        decreases n - i,
    {
        proof {
            assert(text@.take(i + 1).drop_last() =~= text@.take(i as int));
            assert(text@.take(i + 1).last() == cs@[i as int]);
        }
        if cs[i] == '\n' {
            let piece: u128 = ((if cur == 0 { 0 } else { cur - 1 }) / w + 1) as u128;
            rows = if rows + piece > cap { cap } else { rows + piece };
            cur = 0;
        } else {
            cur = cur + 1;
        }
        i = i + 1;
    }
    assert(text@.take(n as int) =~= text@);
    let piece: u128 = ((if cur == 0 { 0 } else { cur - 1 }) / w + 1) as u128;
    let total = rows + piece;
    if total > 0xffff {
        0xffff
    } else {
        total as u16
    }
}

/// A rectangle of the terminal.
#[derive(Clone, Copy, Debug, PartialEq, Eq, Structural)]
pub struct Rect {
    pub x: u16,
    pub y: u16,
    pub width: u16,
    pub height: u16,
}

/// `a - b`, or 0 when `b` is larger.
pub open spec fn sat_sub(a: int, b: int) -> int {
    if a < b {
        0
    } else {
        a - b
    }
}

/// A rectangle of at most `width` by `height` centred in `area`.
pub fn centered_rect(area: Rect, width: u16, height: u16) -> (r: Rect)
    requires
        area.x + sat_sub(area.width as int, width as int) / 2 <= u16::MAX,
        area.y + sat_sub(area.height as int, height as int) / 2 <= u16::MAX,
    ensures
        r.x == area.x + sat_sub(area.width as int, width as int) / 2,
        r.y == area.y + sat_sub(area.height as int, height as int) / 2,
        r.width == (if width < area.width { width } else { area.width }),
        r.height == (if height < area.height { height } else { area.height }),
{
    Rect {
        x: area.x + area.width.saturating_sub(width) / 2,
        y: area.y + area.height.saturating_sub(height) / 2,
        width: if width < area.width { width } else { area.width },
        height: if height < area.height { height } else { area.height },
    }
}

/// The height of the prompt box: the wrapped input inside its border,
/// between 3 rows and the smaller of 8 and the screen height.
pub open spec fn prompt_height_spec(input: Seq<char>, area_width: u16, area_height: u16) -> u16 {
    let inner: u16 = if area_width <= 2 {
        1
    } else {
        (area_width - 2) as u16
    };
    let rows = wrapped_line_count_spec(input, inner) as int + 2;
    let rows = if rows > u16::MAX { u16::MAX as int } else { rows };
    let high: int = if area_height < 8 { area_height as int } else { 8 };
    (if rows < 3 {
        3
    } else if rows > high {
        high
    } else {
        rows
    }) as u16
}

/// The height of the prompt box: the wrapped input inside its border,
/// between 3 rows and the smaller of 8 and the screen height.
pub fn prompt_height(input: &str, area_width: u16, area_height: u16) -> (h: u16)
    requires
        area_height >= 3,
    ensures
        h == prompt_height_spec(input@, area_width, area_height),
{
    let inner: u16 = if area_width <= 2 {
        1
    } else {
        area_width - 2
    };
    let rows = wrapped_line_count(input, inner).saturating_add(2);
    let high: u16 = if area_height < 8 {
        area_height
    } else {
        8
    };
    if rows < 3 {
        3
    } else if rows > high {
        high
    } else {
        rows
    }
}

/// The height of the devtools pane: none when hidden, else a third of what
/// the prompt and status line leave, at least 3 rows.
pub open spec fn devtools_height_spec(visible: bool, area_height: u16, prompt_height: u16) -> u16 {
    if !visible {
        0
    } else {
        let third = sat_sub(sat_sub(area_height as int, prompt_height as int), 1) / 3;
        (if third < 3 {
            3
        } else {
            third
        }) as u16
    }
}

/// The height of the devtools pane.
pub fn devtools_height(visible: bool, area_height: u16, prompt_height: u16) -> (h: u16)
    ensures
        h == devtools_height_spec(visible, area_height, prompt_height),
{
    if !visible {
        0
    } else {
        let third = area_height.saturating_sub(prompt_height).saturating_sub(1) / 3;
        if third < 3 {
            3
        } else {
            third
        }
    }
}

/// Whether a transcript message is drawn: reasoning messages only once they
/// have content.
pub fn is_displayed(message: &Message) -> (b: bool)
    ensures
        b == (message.role != MessageRole::Reasoning || message.content@.len() > 0),
{
    message.role != MessageRole::Reasoning || !message.content.as_str().is_empty()
}


/// A logged request, as values.
pub struct RequestView {
    pub method: Seq<char>,
    pub url: Seq<char>,
    pub model: Seq<char>,
    pub status: Option<u16>,
    pub initial_response_time_ms: Option<u128>,
    pub total_time_ms: Option<u128>,
    pub error: Option<Seq<char>>,
}

impl View for RequestLog {
    type V = RequestView;

    open spec fn view(&self) -> RequestView {
        RequestView {
            method: self.method@,
            url: self.url@,
            model: self.model@,
            status: self.status,
            initial_response_time_ms: self.initial_response_time_ms,
            total_time_ms: self.total_time_ms,
            error: self.error_view(),
        }
    }
}

/// A menu, as values.
pub struct MenuView {
    pub kind: MenuKind,
    pub title: Seq<char>,
    pub items: Seq<Seq<char>>,
    pub selected: usize,
}

impl View for Menu {
    type V = MenuView;

    open spec fn view(&self) -> MenuView {
        MenuView {
            kind: self.kind,
            title: self.title@,
            items: views_of(self.items@),
            selected: self.selected,
        }
    }
}

/// The application state, as values.
pub struct StateView {
    pub devtools_visible: bool,
    pub devtools_tab: DevtoolsTab,
    pub input: Seq<char>,
    pub messages: Seq<(MessageRole, Seq<char>)>,
    pub messages_scroll: u16,
    pub messages_follow_tail: bool,
    pub devtools_scroll: u16,
    pub requests: Seq<RequestView>,
    pub model: Seq<char>,
    pub provider: Seq<char>,
    pub menu: Option<MenuView>,
}

/// The messages of a transcript, as roles and texts.
pub open spec fn messages_view(v: Seq<Message>) -> Seq<(MessageRole, Seq<char>)> {
    v.map_values(|m: Message| (m.role, m.content@))
}

/// The requests of the request log, as values.
pub open spec fn requests_view(v: Seq<RequestLog>) -> Seq<RequestView> {
    v.map_values(|r: RequestLog| r@)
}

/// The rows that ratatui's `Paragraph` takes for these lines when it wraps
/// them, without trimming, at `width` columns.
pub uninterp spec fn paragraph_line_count(lines: Seq<Seq<char>>, width: u16) -> usize;

/// `Paragraph::line_count` of a ratatui paragraph of these lines, one text
/// line each, wrapped with `Wrap { trim: false }`. Claimed of the crate: the
/// count is the value named `paragraph_line_count` of the lines and width.
#[verifier::external_body]
fn wrapped_paragraph_rows(lines: &Vec<String>, width: u16) -> (n: usize)
    ensures
        n == paragraph_line_count(views_of(lines@), width),
{
    let text = ratatui::text::Text::from(
        lines.iter().map(|line| ratatui::text::Line::from(line.as_str())).collect::<Vec<_>>(),
    );
    ratatui::widgets::Paragraph::new(text).wrap(ratatui::widgets::Wrap { trim: false }).line_count(
        width,
    )
}

/// The furthest a pane of `height` rows scrolls over `rows` rows of text:
/// the rows beyond its height (a pane has at least one row), at least 0 and
/// at most `u16::MAX`.
pub open spec fn scroll_limit_spec(rows: int, height: u16) -> u16 {
    let h: int = if height == 0 {
        1
    } else {
        height as int
    };
    if rows <= h {
        0
    } else if rows - h > u16::MAX {
        u16::MAX
    } else {
        (rows - h) as u16
    }
}

/// The furthest a pane of `height` rows scrolls over `rows` rows of text.
pub fn scroll_limit(rows: usize, height: u16) -> (r: u16)
    ensures
        r == scroll_limit_spec(rows as int, height),
{
    let h: usize = if height == 0 {
        1
    } else {
        height as usize
    };
    if rows <= h {
        0
    } else if rows - h > 0xffff {
        0xffff
    } else {
        (rows - h) as u16
    }
}

/// The smaller of two numbers.
pub open spec fn min_u16(a: u16, b: u16) -> u16 {
    if a < b {
        a
    } else {
        b
    }
}

/// The rule drawn under a transcript message: `width` box-drawing
/// characters.
pub open spec fn rule_spec(width: nat) -> Seq<char> {
    Seq::new(width, |i: int| '\u{2500}')
}

/// The rule drawn under a transcript message.
fn rule_line(width: u16) -> (s: String)
    ensures
        s@ == rule_spec(width as nat),
{
    let mut s = String::new();
    let mut i: u16 = 0;
    while i < width
        invariant
            i <= width,
            s@ == rule_spec(i as nat),
        decreases width - i,
    {
        push_char(&mut s, '\u{2500}');
        i = i + 1;
        assert(s@ =~= rule_spec(i as nat));
    }
    s
}

/// The text lines of the transcript pane: each displayed message (a
/// reasoning message only once it has text), then its rule.
pub open spec fn message_pane_lines_spec(messages: Seq<(MessageRole, Seq<char>)>, width: nat) -> Seq<
    Seq<char>,
>
    decreases messages.len(),
{
    if messages.len() == 0 {
        Seq::empty()
    } else {
        let prev = message_pane_lines_spec(messages.drop_last(), width);
        let (role, text) = messages.last();
        if role != MessageRole::Reasoning || text.len() > 0 {
            prev.push(text).push(rule_spec(width))
        } else {
            prev
        }
    }
}

/// The text lines of the request log.
pub open spec fn request_lines_spec(requests: Seq<RequestLog>) -> Seq<Seq<char>> {
    requests.map_values(|r: RequestLog| r.line_spec())
}

/// The width a pane of `width` columns wraps at: at least one column.
pub open spec fn pane_width(width: u16) -> u16 {
    if width == 0 {
        1
    } else {
        width
    }
}

/// The furthest the transcript pane of `width` by `height` cells scrolls.
pub open spec fn messages_scroll_limit(messages: Seq<(MessageRole, Seq<char>)>, width: u16, height: u16) -> u16 {
    scroll_limit_spec(
        paragraph_line_count(
            message_pane_lines_spec(messages, pane_width(width) as nat),
            pane_width(width),
        ) as int,
        height,
    )
}

/// The furthest the devtools pane of `width` by `height` cells scrolls,
/// showing `logs` or `requests` by its tab.
pub open spec fn devtools_scroll_limit(
    tab: DevtoolsTab,
    logs: Seq<Seq<char>>,
    requests: Seq<Seq<char>>,
    width: u16,
    height: u16,
) -> u16 {
    scroll_limit_spec(
        paragraph_line_count(
            if tab == DevtoolsTab::Logs {
                logs
            } else {
                requests
            },
            pane_width(width),
        ) as int,
        height,
    )
}

/// The state of the chat application.
pub struct State {
    pub devtools_visible: bool,
    pub devtools_tab: DevtoolsTab,
    pub input: String,
    pub session: Session,
    pub messages_scroll: u16,
    pub messages_follow_tail: bool,
    pub devtools_scroll: u16,
    pub requests: Vec<RequestLog>,
    pub model: Model,
    pub provider: Provider,
    pub menu: Option<Menu>,
}

impl View for State {
    type V = StateView;

    open spec fn view(&self) -> StateView {
        StateView {
            devtools_visible: self.devtools_visible,
            devtools_tab: self.devtools_tab,
            input: self.input@,
            messages: messages_view(self.session.messages@),
            messages_scroll: self.messages_scroll,
            messages_follow_tail: self.messages_follow_tail,
            devtools_scroll: self.devtools_scroll,
            requests: requests_view(self.requests@),
            model: self.model.name@,
            provider: self.provider.name@,
            menu: match self.menu {
                Some(m) => Some(m@),
                None => None,
            },
        }
    }
}

/// `state` with a diagnostic message added, scrolled to the end of the
/// transcript.
pub open spec fn push_diagnostic_spec(state: StateView, content: Seq<char>) -> StateView {
    StateView {
        messages: state.messages.push((MessageRole::Diagnostic, content)),
        messages_scroll: u16::MAX,
        messages_follow_tail: true,
        ..state
    }
}

/// `state` with the diagnostics `ds` added one after the other.
pub open spec fn push_diagnostics_spec(state: StateView, ds: Seq<Seq<char>>) -> StateView
    decreases ds.len(),
{
    if ds.len() == 0 {
        state
    } else {
        push_diagnostic_spec(push_diagnostics_spec(state, ds.drop_last()), ds.last())
    }
}

impl State {
    /// The state's invariant: an open menu selects one of its items.
    pub open spec fn wf(&self) -> bool {
        self.menu matches Some(m) ==> m.wf()
    }

    /// The state at start-up, with this model and provider.
    pub fn new(model: Model, provider: Provider) -> (s: State)
        ensures
            s@ == (StateView {
                devtools_visible: false,
                devtools_tab: DevtoolsTab::Logs,
                input: Seq::empty(),
                messages: Seq::empty(),
                messages_scroll: 0,
                messages_follow_tail: true,
                devtools_scroll: u16::MAX,
                requests: Seq::empty(),
                model: model.name@,
                provider: provider.name@,
                menu: None,
            }),
            s.wf(),
    {
        let s = State {
            devtools_visible: false,
            devtools_tab: DevtoolsTab::Logs,
            input: String::new(),
            session: Session::default(),
            messages_scroll: 0,
            messages_follow_tail: true,
            devtools_scroll: u16::MAX,
            requests: Vec::new(),
            model,
            provider,
            menu: None,
        };
        assert(messages_view(s.session.messages@) =~= Seq::empty());
        assert(requests_view(s.requests@) =~= Seq::empty());
        s
    }

    /// The text lines of the transcript pane at `width` columns: each
    /// displayed message, then its rule.
    pub fn message_pane_lines(&self, width: u16) -> (v: Vec<String>)
        ensures
            views_of(v@) == message_pane_lines_spec(self@.messages, width as nat),
    {
        let mut v: Vec<String> = Vec::new();
        let n = self.session.messages.len();
        let ghost msgs = self@.messages;
        let mut i: usize = 0;
        assert(msgs.take(0) =~= Seq::<(MessageRole, Seq<char>)>::empty());
        assert(views_of(v@) =~= Seq::<Seq<char>>::empty());
        while i < n
            invariant
                n == self.session.messages@.len(),
                msgs == self@.messages,
                msgs.len() == n,
                i <= n,
                views_of(v@) == message_pane_lines_spec(msgs.take(i as int), width as nat),
            decreases n - i,
        {
            let message = &self.session.messages[i];
            proof {
                assert(msgs.take(i + 1).drop_last() =~= msgs.take(i as int));
                assert(msgs.take(i + 1).last() == (message.role, message.content@));
            }
            if is_displayed(message) {
                let text = message.content.clone();
                proof {
                    lemma_views_of_push(v@, text);
                }
                v.push(text);
                let rule = rule_line(width);
                proof {
                    lemma_views_of_push(v@, rule);
                }
                v.push(rule);
            }
            i = i + 1;
        }
        assert(msgs.take(n as int) =~= msgs);
        v
    }

    /// The text lines of the request log, one per request.
    pub fn request_lines(&self) -> (v: Vec<String>)
        ensures
            views_of(v@) == request_lines_spec(self.requests@),
    {
        let mut v: Vec<String> = Vec::new();
        let n = self.requests.len();
        let mut i: usize = 0;
        assert(views_of(v@) =~= request_lines_spec(self.requests@).take(0));
        while i < n
            invariant
                n == self.requests@.len(),
                i <= n,
                views_of(v@) == request_lines_spec(self.requests@).take(i as int),
            decreases n - i,
        {
            let line = self.requests[i].line();
            proof {
                lemma_views_of_push(v@, line);
            }
            v.push(line);
            i = i + 1;
            assert(views_of(v@) =~= request_lines_spec(self.requests@).take(i as int));
        }
        assert(request_lines_spec(self.requests@).take(n as int) =~= request_lines_spec(self.requests@));
        v
    }

    /// Keeps the transcript's scroll position within the transcript pane of
    /// `width` by `height` cells: at most the rows that the wrapped
    /// transcript takes beyond the pane's height.
    pub fn clamp_messages_scroll(&mut self, width: u16, height: u16)
        ensures
            final(self)@ == (StateView {
                messages_scroll: min_u16(
                    old(self).messages_scroll,
                    messages_scroll_limit(old(self)@.messages, width, height),
                ),
                ..old(self)@
            }),
            final(self).menu == old(self).menu,
    {
        let w: u16 = if width == 0 {
            1
        } else {
            width
        };
        let lines = self.message_pane_lines(w);
        let limit = scroll_limit(wrapped_paragraph_rows(&lines, w), height);
        if limit < self.messages_scroll {
            self.messages_scroll = limit;
        }
    }

    /// Keeps the devtools pane's scroll position, when the pane is shown,
    /// within the pane of `width` by `height` cells: at most the rows that
    /// its wrapped lines take beyond its height. The pane shows the log
    /// lines `logs` on the Logs tab and the request log on the Requests tab.
    pub fn clamp_devtools_scroll(&mut self, logs: &Vec<String>, width: u16, height: u16)
        ensures
            final(self)@ == (if old(self).devtools_visible {
                StateView {
                    devtools_scroll: min_u16(
                        old(self).devtools_scroll,
                        devtools_scroll_limit(
                            old(self).devtools_tab,
                            views_of(logs@),
                            request_lines_spec(old(self).requests@),
                            width,
                            height,
                        ),
                    ),
                    ..old(self)@
                }
            } else {
                old(self)@
            }),
            final(self).menu == old(self).menu,
    {
        if !self.devtools_visible {
            return;
        }
        let w: u16 = if width == 0 {
            1
        } else {
            width
        };
        let rows = match self.devtools_tab {
            DevtoolsTab::Logs => wrapped_paragraph_rows(logs, w),
            DevtoolsTab::Requests => {
                let lines = self.request_lines();
                wrapped_paragraph_rows(&lines, w)
            },
        };
        let limit = scroll_limit(rows, height);
        if limit < self.devtools_scroll {
            self.devtools_scroll = limit;
        }
    }

    /// Adds a diagnostic message and scrolls to the end of the transcript.
    pub fn push_diagnostic(&mut self, content: String)
        ensures
            final(self)@ == push_diagnostic_spec(old(self)@, content@),
            final(self).menu == old(self).menu,
    {
        let ghost before = self.session.messages@;
        self.session.messages.push(Message { role: MessageRole::Diagnostic, content });
        assert(messages_view(self.session.messages@) =~= messages_view(before).push(
            (MessageRole::Diagnostic, content@),
        ));
        self.messages_scroll = u16::MAX;
        self.messages_follow_tail = true;
    }
}


/// What the application keeps between runs: whether the devtools pane is
/// shown, and the selected provider and model.
pub struct Selection {
    pub devtools_visible: bool,
    pub provider: String,
    pub model: String,
}

/// The state at start-up, before anything has happened.
pub open spec fn startup_view(devtools_visible: bool, provider: Seq<char>, model: Seq<char>) -> StateView {
    StateView {
        devtools_visible,
        devtools_tab: DevtoolsTab::Logs,
        input: Seq::empty(),
        messages: Seq::empty(),
        messages_scroll: 0,
        messages_follow_tail: true,
        devtools_scroll: u16::MAX,
        requests: Seq::empty(),
        model,
        provider,
        menu: None,
    }
}

/// The provider's name as the application shows it is already the name
/// it shows: naming a provider twice changes nothing.
pub proof fn lemma_provider_name_canonical(name: Seq<char>)
    ensures
        provider_name_for(provider_name_for(name)) == provider_name_for(name),
{
    reveal_strlit("Ollama");
    reveal_strlit("llama.cpp");
    reveal_strlit("llamacpp");
    reveal_strlit("llama-cpp");
    let o = "Ollama"@;
    let l = to_ascii_lowercase_spec(o);
    assert(l[0] == 'o');
    assert("llama.cpp"@[0] == 'l' && "llamacpp"@[0] == 'l' && "llama-cpp"@[0] == 'l');
    assert(!is_llama_cpp_name(o));
    let c = "llama.cpp"@;
    assert(to_ascii_lowercase_spec(c) =~= c);
}

impl State {
    /// What this state keeps for the next run.
    pub fn selection(&self) -> (s: Selection)
        ensures
            s.devtools_visible == self.devtools_visible,
            s.provider@ == self.provider.name@,
            s.model@ == self.model.name@,
    {
        Selection {
            devtools_visible: self.devtools_visible,
            provider: self.provider.name.clone(),
            model: self.model.name.clone(),
        }
    }

    /// The state at start-up: the saved selection when there is one (with
    /// the provider's name as the application shows it), else the provider
    /// named `provider_name` with its default model and the devtools hidden.
    pub fn restore(saved: Option<Selection>, provider_name: &str, settings: &ProviderSettings) -> (s: State)
        ensures
            s@ == match saved {
                Some(sel) => startup_view(
                    sel.devtools_visible,
                    provider_name_for(sel.provider@),
                    sel.model@,
                ),
                None => startup_view(
                    false,
                    provider_name_for(provider_name@),
                    default_model_spec(provider_name@, *settings),
                ),
            },
            s.wf(),
    {
        match saved {
            Some(sel) => {
                let local_provider = LocalProvider::from_name(sel.provider.as_str(), settings);
                let mut s = State::new(Model::new(sel.model), Provider::named(local_provider.name()));
                s.devtools_visible = sel.devtools_visible;
                s
            },
            None => {
                let local_provider = LocalProvider::from_name(provider_name, settings);
                State::new(
                    LocalProvider::default_model_for(provider_name, settings),
                    Provider::named(local_provider.name()),
                )
            },
        }
    }
}

/// Whether a state's provider has the name the application shows for it.
pub open spec fn provider_canonical(state: StateView) -> bool {
    provider_name_for(state.provider) == state.provider
}

/// Restoring what a state keeps gives back the same selection, whenever its
/// provider has the name the application shows for it; every restored state
/// has such a provider.
pub proof fn lemma_selection_round_trip(state: StateView, provider_name: Seq<char>, settings: ProviderSettings)
    requires
        provider_canonical(state),
    ensures
        ({
            let v = startup_view(state.devtools_visible, provider_name_for(state.provider), state.model);
            &&& v.devtools_visible == state.devtools_visible
            &&& v.provider == state.provider
            &&& v.model == state.model
        }),
        provider_canonical(startup_view(false, provider_name_for(provider_name), default_model_spec(provider_name, settings))),
        provider_canonical(startup_view(state.devtools_visible, provider_name_for(state.provider), state.model)),
{
    lemma_provider_name_canonical(provider_name);
}

/// Diagnostics leave the provider and model as they are.
proof fn lemma_push_diagnostics_keeps_selection(state: StateView, ds: Seq<Seq<char>>)
    ensures
        push_diagnostics_spec(state, ds).provider == state.provider,
        push_diagnostics_spec(state, ds).model == state.model,
        push_diagnostics_spec(state, ds).devtools_visible == state.devtools_visible,
    decreases ds.len(),
{
    if ds.len() > 0 {
        lemma_push_diagnostics_keeps_selection(state, ds.drop_last());
    }
}

/// A key press, as the application distinguishes keys.
#[derive(Clone, Copy, Debug, PartialEq, Eq, Structural)]
pub enum Key {
    Esc,
    F12,
    Tab,
    Up,
    Down,
    PageUp,
    PageDown,
    Enter { control: bool },
    Char { c: char, control: bool },
    Backspace,
    Other,
}

/// The diagnostic that reports a provider change.
pub open spec fn provider_set_message(provider: Seq<char>, model: Seq<char>) -> Seq<char> {
    "Provider set to "@ + provider + ". Model set to "@ + model + "."@
}

/// The diagnostic that reports a model change.
pub open spec fn model_set_message(model: Seq<char>) -> Seq<char> {
    "Model set to "@ + model + "."@
}

/// The selection after moving up in a menu.
pub open spec fn previous_spec(m: MenuView) -> MenuView {
    MenuView {
        selected: if m.selected == 0 {
            0
        } else {
            (m.selected - 1) as usize
        },
        ..m
    }
}

/// The selection after moving down in a menu.
pub open spec fn next_spec(m: MenuView) -> MenuView {
    MenuView {
        selected: if m.items.len() == 0 {
            0
        } else if m.selected + 1 < m.items.len() {
            (m.selected + 1) as usize
        } else {
            (m.items.len() - 1) as usize
        },
        ..m
    }
}

/// What a key does while a menu is open: Esc closes it, Up and Down move
/// the selection, Enter closes it and applies the selected provider or
/// model; other keys do nothing.
pub open spec fn menu_key_spec(state: StateView, key: Key, settings: ProviderSettings) -> StateView {
    match state.menu {
        None => state,
        Some(m) => match key {
            Key::Esc => StateView { menu: None, ..state },
            Key::Up => StateView { menu: Some(previous_spec(m)), ..state },
            Key::Down => StateView { menu: Some(next_spec(m)), ..state },
            Key::Enter { .. } => {
                let value = m.items[m.selected as int];
                let closed = StateView { menu: None, ..state };
                match m.kind {
                    MenuKind::Provider => {
                        let p = provider_name_for(value);
                        let md = default_model_spec(value, settings);
                        push_diagnostic_spec(
                            StateView { provider: p, model: md, ..closed },
                            provider_set_message(p, md),
                        )
                    },
                    MenuKind::Model => push_diagnostic_spec(
                        StateView { model: value, ..closed },
                        model_set_message(value),
                    ),
                }
            },
            _ => state,
        },
    }
}

impl State {
    /// Handles a key while a menu is open.
    pub fn handle_menu_key(&mut self, key: Key, settings: &ProviderSettings)
        requires
            old(self).wf(),
            old(self).menu is Some,
            key is Enter ==> old(self).menu->Some_0.items@.len() > 0,
        ensures
            final(self)@ == menu_key_spec(old(self)@, key, *settings),
            final(self).wf(),
    {
        match key {
            Key::Esc => {
                self.menu = None;
            },
            Key::Up => {
                let mut menu = self.menu.take();
                match &mut menu {
                    Some(m) => m.previous(),
                    None => {},
                }
                self.menu = menu;
            },
            Key::Down => {
                let mut menu = self.menu.take();
                match &mut menu {
                    Some(m) => m.next(),
                    None => {},
                }
                self.menu = menu;
            },
            Key::Enter { .. } => {
                match self.menu.take() {
                    Some(menu) => {
                        let value = menu.items[menu.selected].clone();
                        assert(value@ == views_of(menu.items@)[menu.selected as int]);
                        match menu.kind {
                            MenuKind::Provider => {
                                let local_provider = LocalProvider::from_name(value.as_str(), settings);
                                self.provider = Provider::named(local_provider.name());
                                self.model = LocalProvider::default_model_for(value.as_str(), settings);
                                let msg = String::from_str("Provider set to ").concat(
                                    self.provider.name.as_str(),
                                ).concat(". Model set to ").concat(self.model.name.as_str()).concat(
                                    ".",
                                );
                                self.push_diagnostic(msg);
                            },
                            MenuKind::Model => {
                                self.model = Model::new(value);
                                let msg = String::from_str("Model set to ").concat(
                                    self.model.name.as_str(),
                                ).concat(".");
                                self.push_diagnostic(msg);
                            },
                        }
                    },
                    None => {},
                }
            },
            _ => {},
        }
    }
}


/// What a running provider request reports to the application.
pub enum ProviderEvent {
    InitialResponse { request_index: usize, status: u16, initial_response_time_ms: u128 },
    Chunk { message_index: usize, content: String },
    ReasoningChunk { message_index: usize, content: String },
    Complete { request_index: usize, total_time_ms: u128 },
    Failure { request_index: usize, message_index: usize, error: String, total_time_ms: u128 },
    ModelsDiscovered { provider: String, models: Vec<Model> },
    ModelDiscoveryFailed { provider: String, error: String },
}

/// `state` with the text `content` appended to message `index`, if there
/// is such a message.
pub open spec fn append_to_message(state: StateView, index: usize, content: Seq<char>) -> StateView {
    if index < state.messages.len() {
        let (role, text) = state.messages[index as int];
        StateView { messages: state.messages.update(index as int, (role, text + content)), ..state }
    } else {
        state
    }
}

/// `state` with request `index` changed by `f`, if there is such a request.
pub open spec fn update_request(state: StateView, index: usize, f: spec_fn(RequestView) -> RequestView) -> StateView {
    if index < state.requests.len() {
        StateView {
            requests: state.requests.update(index as int, f(state.requests[index as int])),
            ..state
        }
    } else {
        state
    }
}

/// What an event changes before the scrolling is adjusted.
pub open spec fn provider_event_effect(
    state: StateView,
    event: ProviderEvent,
    settings: ProviderSettings,
) -> StateView {
    match event {
        ProviderEvent::InitialResponse { request_index, status, initial_response_time_ms } =>
            update_request(
            state,
            request_index,
            |r: RequestView|
                RequestView {
                    status: Some(status),
                    initial_response_time_ms: Some(initial_response_time_ms),
                    ..r
                },
        ),
        ProviderEvent::Chunk { message_index, content } => append_to_message(
            state,
            message_index,
            content@,
        ),
        ProviderEvent::ReasoningChunk { message_index, content } => append_to_message(
            state,
            message_index,
            content@,
        ),
        ProviderEvent::Complete { request_index, total_time_ms } => update_request(
            state,
            request_index,
            |r: RequestView| RequestView { total_time_ms: Some(total_time_ms), error: None, ..r },
        ),
        ProviderEvent::Failure { request_index, message_index, error, total_time_ms } => {
            let s1 = update_request(
                state,
                request_index,
                |r: RequestView|
                    RequestView {
                        status: None,
                        total_time_ms: Some(total_time_ms),
                        error: Some(error@),
                        ..r
                    },
            );
            let s2 = if message_index < s1.messages.len() && s1.messages[message_index as int].1.len()
                == 0 {
                StateView {
                    messages: s1.messages.update(
                        message_index as int,
                        (s1.messages[message_index as int].0, "[request failed]"@),
                    ),
                    ..s1
                }
            } else {
                s1
            };
            StateView {
                messages: s2.messages.push(
                    (MessageRole::Diagnostic, s2.provider + " request failed: "@ + error@),
                ),
                ..s2
            }
        },
        ProviderEvent::ModelsDiscovered { provider, models } => if provider@ == state.provider
            && (state.menu matches Some(m) && m.kind == MenuKind::Model) {
            StateView {
                menu: Some(
                    MenuView {
                        kind: MenuKind::Model,
                        title: "Choose Model"@,
                        items: model_menu_items_spec(
                            state.model,
                            default_model_spec(state.provider, settings),
                            crate::provider::model_names(models@),
                        ),
                        selected: 0,
                    },
                ),
                ..state
            }
        } else {
            state
        },
        ProviderEvent::ModelDiscoveryFailed { provider, error } => if provider@ == state.provider {
            push_diagnostic_spec(state, "Model discovery failed: "@ + error@)
        } else {
            state
        },
    }
}

/// What an event does: its effect, then the transcript follows its end
/// when it is following, and the devtools pane scrolls to its end.
pub open spec fn provider_event_spec(state: StateView, event: ProviderEvent, settings: ProviderSettings) -> StateView {
    let s = provider_event_effect(state, event, settings);
    StateView {
        messages_scroll: if s.messages_follow_tail {
            u16::MAX
        } else {
            s.messages_scroll
        },
        devtools_scroll: u16::MAX,
        ..s
    }
}

impl State {
    /// Appends `content` to message `index`, if there is such a message.
    fn append_to_message(&mut self, index: usize, content: &str)
        ensures
            final(self)@ == append_to_message(old(self)@, index, content@),
            final(self).menu == old(self).menu,
    {
        if index < self.session.messages.len() {
            let ghost before = self.session.messages@;
            let text = self.session.messages[index].content.clone().concat(content);
            self.session.messages[index].content = text;
            assert(messages_view(self.session.messages@) =~= messages_view(before).update(
                index as int,
                (before[index as int].role, before[index as int].content@ + content@),
            ));
        }
    }

    /// Applies an event reported by a running provider request.
    pub fn apply_provider_event(&mut self, event: ProviderEvent, settings: &ProviderSettings)
        requires
            old(self).wf(),
        ensures
            final(self)@ == provider_event_spec(old(self)@, event, *settings),
            final(self).wf(),
    {
        let ghost old_view = self@;
        match event {
            ProviderEvent::InitialResponse { request_index, status, initial_response_time_ms } => {
                if request_index < self.requests.len() {
                    let ghost before = self.requests@;
                    self.requests[request_index].status = Some(status);
                    self.requests[request_index].initial_response_time_ms = Some(
                        initial_response_time_ms,
                    );
                    assert(requests_view(self.requests@) =~= requests_view(before).update(
                        request_index as int,
                        RequestView {
                            status: Some(status),
                            initial_response_time_ms: Some(initial_response_time_ms),
                            ..before[request_index as int]@
                        },
                    ));
                }
            },
            ProviderEvent::Chunk { message_index, content } => {
                self.append_to_message(message_index, content.as_str());
            },
            ProviderEvent::ReasoningChunk { message_index, content } => {
                self.append_to_message(message_index, content.as_str());
            },
            ProviderEvent::Complete { request_index, total_time_ms } => {
                if request_index < self.requests.len() {
                    let ghost before = self.requests@;
                    self.requests[request_index].total_time_ms = Some(total_time_ms);
                    self.requests[request_index].error = None;
                    assert(requests_view(self.requests@) =~= requests_view(before).update(
                        request_index as int,
                        RequestView {
                            total_time_ms: Some(total_time_ms),
                            error: None,
                            ..before[request_index as int]@
                        },
                    ));
                }
            },
            ProviderEvent::Failure { request_index, message_index, error, total_time_ms } => {
                if request_index < self.requests.len() {
                    let ghost before = self.requests@;
                    self.requests[request_index].status = None;
                    self.requests[request_index].total_time_ms = Some(total_time_ms);
                    self.requests[request_index].error = Some(error.clone());
                    assert(requests_view(self.requests@) =~= requests_view(before).update(
                        request_index as int,
                        RequestView {
                            status: None,
                            total_time_ms: Some(total_time_ms),
                            error: Some(error@),
                            ..before[request_index as int]@
                        },
                    ));
                }
                if message_index < self.session.messages.len()
                    && self.session.messages[message_index].content.as_str().is_empty() {
                    let ghost before = self.session.messages@;
                    self.session.messages[message_index].content = String::from_str(
                        "[request failed]",
                    );
                    assert(messages_view(self.session.messages@) =~= messages_view(before).update(
                        message_index as int,
                        (before[message_index as int].role, "[request failed]"@),
                    ));
                }
                let ghost before = self.session.messages@;
                let content = self.provider.name.clone().concat(" request failed: ").concat(
                    error.as_str(),
                );
                self.session.messages.push(Message { role: MessageRole::Diagnostic, content });
                assert(messages_view(self.session.messages@) =~= messages_view(before).push(
                    (MessageRole::Diagnostic, content@),
                ));
            },
            ProviderEvent::ModelsDiscovered { provider, models } => {
                let is_model_menu = match &self.menu {
                    Some(m) => m.kind == MenuKind::Model,
                    None => false,
                };
                if provider == self.provider.name && is_model_menu {
                    self.menu = Some(Menu::model(&self.provider, &self.model, models, settings));
                }
            },
            ProviderEvent::ModelDiscoveryFailed { provider, error } => {
                if provider == self.provider.name {
                    let msg = String::from_str("Model discovery failed: ").concat(error.as_str());
                    self.push_diagnostic(msg);
                }
            },
        }
        if self.messages_follow_tail {
            self.messages_scroll = u16::MAX;
        }
        self.devtools_scroll = u16::MAX;
    }
}


/// Removes the last character of a string, if any (`String::pop`).
#[verifier::external_body]
fn pop_char(s: &mut String)
    ensures
        final(s)@ == (if old(s)@.len() > 0 {
            old(s)@.drop_last()
        } else {
            old(s)@
        }),
{
    s.pop();
}

/// The provider menu for the current provider, as values.
pub open spec fn provider_menu_spec(provider: Seq<char>) -> MenuView {
    MenuView {
        kind: MenuKind::Provider,
        title: "Choose Provider"@,
        items: provider_menu_items(),
        selected: if eq_ignore_ascii_case_spec(provider_menu_items()[0], provider) {
            0usize
        } else if eq_ignore_ascii_case_spec(provider_menu_items()[1], provider) {
            1usize
        } else {
            0usize
        },
    }
}

/// The model menu, as values.
pub open spec fn model_menu_spec(
    provider: Seq<char>,
    model: Seq<char>,
    names: Seq<Seq<char>>,
    settings: ProviderSettings,
) -> MenuView {
    MenuView {
        kind: MenuKind::Model,
        title: "Choose Model"@,
        items: model_menu_items_spec(model, default_model_spec(provider, settings), names),
        selected: 0,
    }
}

/// The chat endpoint of the provider that `provider` names.
pub open spec fn chat_url_spec(provider: Seq<char>, settings: ProviderSettings) -> Seq<char> {
    if is_llama_cpp_name(provider) {
        crate::provider::trim_end_slashes(settings.llama_cpp_base_url@) + "/v1/chat/completions"@
    } else {
        crate::provider::trim_end_slashes(settings.ollama_base_url@) + "/api/chat"@
    }
}

/// What the application asks its runner to do after a key.
#[derive(Clone, Copy, Debug, PartialEq, Eq, Structural)]
pub enum ActionKind {
    Continue,
    Exit,
    DiscoverModels,
    SendChat,
}

/// A chat request to send, and where its results go.
pub struct ChatDispatch {
    /// The provider to send it to.
    pub provider: LocalProvider,
    /// The request.
    pub request: ChatRequest,
    /// The request log entry of the request.
    pub request_index: usize,
    /// The transcript message that receives the reply.
    pub message_index: usize,
    /// The transcript message that receives the reasoning.
    pub reasoning_message_index: usize,
}

/// What the application asks its runner to do after a key.
pub enum KeyAction {
    /// Keep running.
    Continue,
    /// Exit the application.
    Exit,
    /// Discover the models of this provider and report them.
    DiscoverModels(LocalProvider),
    /// Send this chat request.
    SendChat(ChatDispatch),
}

/// The kind of an action.
pub open spec fn action_kind(a: KeyAction) -> ActionKind {
    match a {
        KeyAction::Continue => ActionKind::Continue,
        KeyAction::Exit => ActionKind::Exit,
        KeyAction::DiscoverModels(_) => ActionKind::DiscoverModels,
        KeyAction::SendChat(_) => ActionKind::SendChat,
    }
}

/// `a + b`, or `u16::MAX` when that is larger.
pub open spec fn sat_add_u16(a: u16, b: u16) -> u16 {
    if a + b > u16::MAX {
        u16::MAX
    } else {
        (a + b) as u16
    }
}

/// `a - b`, or 0 when `b` is larger.
pub open spec fn sat_sub_u16(a: u16, b: u16) -> u16 {
    if a < b {
        0
    } else {
        (a - b) as u16
    }
}

/// `state` after sending the prompt `p` as a chat message: the prompt, an
/// empty reasoning message and an empty reply are added to the transcript,
/// the request is logged, and the transcript scrolls to its end.
pub open spec fn send_spec(state: StateView, p: Seq<char>, settings: ProviderSettings) -> StateView {
    StateView {
        messages: state.messages.push((MessageRole::User, p)).push(
            (MessageRole::Reasoning, Seq::empty()),
        ).push((MessageRole::Assistant, Seq::empty())),
        requests: state.requests.push(
            RequestView {
                method: "POST"@,
                url: chat_url_spec(state.provider, settings),
                model: state.model,
                status: None,
                initial_response_time_ms: None,
                total_time_ms: None,
                error: None,
            },
        ),
        messages_scroll: u16::MAX,
        messages_follow_tail: true,
        ..state
    }
}

/// Sending a prompt keeps the transcript and adds three messages after it:
/// the prompt as the user's, then an empty reasoning message, then an empty
/// reply from the assistant; one request is logged.
pub proof fn lemma_send_adds_turn(state: StateView, p: Seq<char>, settings: ProviderSettings)
    ensures
        ({
            let n = state.messages.len();
            let m = send_spec(state, p, settings).messages;
            &&& m.len() == n + 3
            &&& m.take(n as int) == state.messages
            &&& m[n as int] == (MessageRole::User, p)
            &&& m[n + 1int] == (MessageRole::Reasoning, Seq::<char>::empty())
            &&& m[n + 2int] == (MessageRole::Assistant, Seq::<char>::empty())
            &&& send_spec(state, p, settings).requests.len() == state.requests.len() + 1
        }),
{
    let n = state.messages.len();
    let m = send_spec(state, p, settings).messages;
    assert(m.take(n as int) =~= state.messages);
}

/// What Enter (without Control) does: the trimmed input is handled as a
/// command; a prompt that is not a command and not empty is sent as a chat
/// message; the input is cleared unless the application exits.
pub open spec fn enter_spec(state: StateView, settings: ProviderSettings) -> (StateView, ActionKind) {
    let p = trim_spec(state.input);
    let e = command::handle_spec(state.provider, state.model, settings, p);
    match e.outcome {
        command::Outcome::Exit => (state, ActionKind::Exit),
        command::Outcome::Handled => (
            StateView {
                input: Seq::empty(),
                ..push_diagnostics_spec(
                    StateView { provider: e.provider, model: e.model, ..state },
                    e.diagnostics,
                )
            },
            ActionKind::Continue,
        ),
        command::Outcome::OpenProviderMenu => (
            StateView {
                input: Seq::empty(),
                menu: Some(provider_menu_spec(state.provider)),
                ..state
            },
            ActionKind::Continue,
        ),
        command::Outcome::OpenModelMenu => (
            StateView {
                input: Seq::empty(),
                menu: Some(model_menu_spec(state.provider, state.model, Seq::empty(), settings)),
                ..state
            },
            ActionKind::DiscoverModels,
        ),
        command::Outcome::Ignored => if p.len() == 0 {
            (StateView { input: Seq::empty(), ..state }, ActionKind::Continue)
        } else {
            (StateView { input: Seq::empty(), ..send_spec(state, p, settings) }, ActionKind::SendChat)
        },
    }
}

/// What a key does: with a menu open, the menu takes it; otherwise Esc
/// exits, F12 shows or hides the devtools, Tab switches their tab, the
/// arrows and page keys scroll the devtools when shown and the transcript
/// otherwise, Enter submits the input (Control+Enter adds a newline),
/// characters are typed (Control+J adds a newline), and Backspace deletes.
pub open spec fn key_spec(state: StateView, key: Key, settings: ProviderSettings) -> (StateView, ActionKind) {
    if state.menu is Some {
        (menu_key_spec(state, key, settings), ActionKind::Continue)
    } else {
        let v = state.devtools_visible;
        match key {
            Key::Esc => (state, ActionKind::Exit),
            Key::F12 => (
                StateView { devtools_visible: !v, devtools_scroll: u16::MAX, ..state },
                ActionKind::Continue,
            ),
            Key::Tab => (
                if v {
                    StateView {
                        devtools_tab: if state.devtools_tab == DevtoolsTab::Logs {
                            DevtoolsTab::Requests
                        } else {
                            DevtoolsTab::Logs
                        },
                        devtools_scroll: u16::MAX,
                        ..state
                    }
                } else {
                    state
                },
                ActionKind::Continue,
            ),
            Key::Up => (
                if v {
                    StateView { devtools_scroll: sat_sub_u16(state.devtools_scroll, 1), ..state }
                } else {
                    StateView {
                        messages_scroll: sat_sub_u16(state.messages_scroll, 1),
                        messages_follow_tail: false,
                        ..state
                    }
                },
                ActionKind::Continue,
            ),
            Key::Down => (
                if v {
                    StateView { devtools_scroll: sat_add_u16(state.devtools_scroll, 1), ..state }
                } else {
                    StateView {
                        messages_scroll: sat_add_u16(state.messages_scroll, 1),
                        messages_follow_tail: true,
                        ..state
                    }
                },
                ActionKind::Continue,
            ),
            Key::PageUp => (
                if v {
                    StateView { devtools_scroll: sat_sub_u16(state.devtools_scroll, 5), ..state }
                } else {
                    StateView {
                        messages_scroll: sat_sub_u16(state.messages_scroll, 5),
                        messages_follow_tail: false,
                        ..state
                    }
                },
                ActionKind::Continue,
            ),
            Key::PageDown => (
                if v {
                    StateView { devtools_scroll: sat_add_u16(state.devtools_scroll, 5), ..state }
                } else {
                    StateView {
                        messages_scroll: sat_add_u16(state.messages_scroll, 5),
                        messages_follow_tail: true,
                        ..state
                    }
                },
                ActionKind::Continue,
            ),
            Key::Enter { control } => if control {
                (StateView { input: state.input.push('\n'), ..state }, ActionKind::Continue)
            } else {
                enter_spec(state, settings)
            },
            Key::Char { c, control } => (
                StateView {
                    input: state.input.push(
                        if control && c == 'j' {
                            '\n'
                        } else {
                            c
                        },
                    ),
                    ..state
                },
                ActionKind::Continue,
            ),
            Key::Backspace => (
                StateView {
                    input: if state.input.len() > 0 {
                        state.input.drop_last()
                    } else {
                        state.input
                    },
                    ..state
                },
                ActionKind::Continue,
            ),
            Key::Other => (state, ActionKind::Continue),
        }
    }
}

/// Every key keeps the provider's name as the application shows it: a
/// provider chosen by command or from the menu gets that name.
pub proof fn lemma_keys_keep_provider_canonical(state: StateView, key: Key, settings: ProviderSettings)
    requires
        provider_canonical(state),
    ensures
        provider_canonical(key_spec(state, key, settings).0),
{
    let p = trim_spec(state.input);
    let e = command::handle_spec(state.provider, state.model, settings, p);
    match command::split_command_spec(p.drop_first()) {
        Some((_, args)) => lemma_provider_name_canonical(args),
        None => {},
    }
    lemma_push_diagnostics_keeps_selection(StateView { provider: e.provider, model: e.model, ..state }, e.diagnostics);
    match state.menu {
        Some(m) => lemma_provider_name_canonical(m.items[m.selected as int]),
        None => {},
    }
}

/// Provider events never change the provider or the model.
pub proof fn lemma_events_keep_selection(state: StateView, event: ProviderEvent, settings: ProviderSettings)
    ensures
        provider_event_spec(state, event, settings).provider == state.provider,
        provider_event_spec(state, event, settings).model == state.model,
        provider_event_spec(state, event, settings).devtools_visible == state.devtools_visible,
{
}


impl State {
    /// Sends the prompt `prompt` as a chat message.
    fn send_prompt(&mut self, prompt: &str, settings: &ProviderSettings) -> (d: ChatDispatch)
        requires
            old(self).wf(),
        ensures
            final(self)@ == send_spec(old(self)@, prompt@, *settings),
            final(self).wf(),
            d.request.model.name@ == old(self)@.model,
            messages_view(d.request.messages@) == old(self)@.messages.push(
                (MessageRole::User, prompt@),
            ),
            d.request_index == old(self)@.requests.len(),
            d.reasoning_message_index == old(self)@.messages.len() + 1,
            d.message_index == old(self)@.messages.len() + 2,
            selects_provider(old(self)@.provider, *settings, d.provider),
            final(self)@.messages.len() == d.message_index + 1,
            final(self)@.messages.take(old(self)@.messages.len() as int) == old(self)@.messages,
            final(self)@.messages[d.reasoning_message_index - 1] == (MessageRole::User, prompt@),
            final(self)@.messages[d.reasoning_message_index as int] == (
                MessageRole::Reasoning,
                Seq::<char>::empty(),
            ),
            final(self)@.messages[d.message_index as int] == (
                MessageRole::Assistant,
                Seq::<char>::empty(),
            ),
    {
        let ghost m0 = self.session.messages@;
        self.session.messages.push(
            Message { role: MessageRole::User, content: String::from_str(prompt) },
        );
        let request_messages = self.session.messages.clone();
        assert(request_messages@ =~= self.session.messages@);
        let ghost m1 = self.session.messages@;
        let reasoning_message_index = self.session.messages.len();
        self.session.messages.push(Message { role: MessageRole::Reasoning, content: String::new() });
        let ghost m2 = self.session.messages@;
        let message_index = self.session.messages.len();
        self.session.messages.push(Message { role: MessageRole::Assistant, content: String::new() });
        assert(messages_view(self.session.messages@) =~= messages_view(m0).push(
            (MessageRole::User, prompt@),
        ).push((MessageRole::Reasoning, Seq::empty())).push(
            (MessageRole::Assistant, Seq::empty()),
        ));
        assert(messages_view(request_messages@) =~= messages_view(m0).push(
            (MessageRole::User, prompt@),
        ));
        let local_provider = LocalProvider::from_name(self.provider.name.as_str(), settings);
        let request_url = local_provider.chat_url();
        let request_model = self.model.name.clone();
        let request_index = self.requests.len();
        let ghost r0 = self.requests@;
        let log = RequestLog {
            method: "POST",
            url: request_url,
            model: request_model,
            status: None,
            initial_response_time_ms: None,
            total_time_ms: None,
            error: None,
        };
        self.requests.push(log);
        assert(requests_view(self.requests@) =~= requests_view(r0).push(log@));
        let request = ChatRequest { model: self.model.clone(), messages: request_messages };
        self.messages_scroll = u16::MAX;
        self.messages_follow_tail = true;
        ChatDispatch {
            provider: local_provider,
            request,
            request_index,
            message_index,
            reasoning_message_index,
        }
    }

    /// Handles Enter (without Control).
    fn handle_enter(&mut self, settings: &ProviderSettings) -> (a: KeyAction)
        requires
            old(self).wf(),
            old(self).menu is None,
        ensures
            (final(self)@, action_kind(a)) == enter_spec(old(self)@, *settings),
            final(self).wf(),
            a matches KeyAction::SendChat(d) ==> {
                &&& d.request.model.name@ == old(self)@.model
                &&& messages_view(d.request.messages@) == old(self)@.messages.push(
                    (MessageRole::User, trim_spec(old(self)@.input)),
                )
                &&& d.request_index == old(self)@.requests.len()
                &&& d.reasoning_message_index == old(self)@.messages.len() + 1
                &&& d.message_index == old(self)@.messages.len() + 2
                &&& selects_provider(old(self)@.provider, *settings, d.provider)
                &&& final(self)@.messages.len() == d.message_index + 1
                &&& final(self)@.messages.take(old(self)@.messages.len() as int)
                    == old(self)@.messages
                &&& final(self)@.messages[d.reasoning_message_index - 1] == (
                    MessageRole::User,
                    trim_spec(old(self)@.input),
                )
                &&& final(self)@.messages[d.reasoning_message_index as int] == (
                    MessageRole::Reasoning,
                    Seq::<char>::empty(),
                )
                &&& final(self)@.messages[d.message_index as int] == (
                    MessageRole::Assistant,
                    Seq::<char>::empty(),
                )
            },
            a matches KeyAction::DiscoverModels(p) ==> selects_provider(
                old(self)@.provider,
                *settings,
                p,
            ),
    {
        let ghost s0 = self@;
        let prompt = String::from_str(trim(self.input.as_str()));
        let mut provider = Provider { name: String::new() };
        std::mem::swap(&mut provider, &mut self.provider);
        let mut model = Model::new(String::new());
        std::mem::swap(&mut model, &mut self.model);
        let mut context = command::Context::new(provider, model, settings);
        let outcome = command::handle(&mut context, prompt.as_str());
        let command::Context { provider, model, settings: _, diagnostics } = context;
        self.provider = provider;
        self.model = model;
        let ghost e = command::handle_spec(s0.provider, s0.model, *settings, prompt@);
        match outcome {
            command::Outcome::Exit => {
                assert(self@ == s0);
                KeyAction::Exit
            },
            command::Outcome::Handled => {
                let ghost base = self@;
                assert(base == StateView { provider: e.provider, model: e.model, ..s0 });
                let ghost ds = views_of(diagnostics@);
                assert(ds == e.diagnostics);
                assert(ds.take(0) =~= Seq::<Seq<char>>::empty());
                for d in it: diagnostics.into_iter()
                    invariant
                        it.seq() == diagnostics@,
                        ds == views_of(diagnostics@),
                        self@ == push_diagnostics_spec(base, ds.take(it.index() as int)),
                        self.menu is None,
                {
                    let ghost i = it.index();
                    assert(ds.take(i + 1).drop_last() =~= ds.take(i as int));
                    assert(ds.take(i + 1).last() == d@);
                    self.push_diagnostic(d);
                }
                assert(ds.take(ds.len() as int) =~= ds);
                self.input = String::new();
                KeyAction::Continue
            },
            command::Outcome::OpenProviderMenu => {
                let menu = Menu::provider(&self.provider);
                assert(menu@ == provider_menu_spec(s0.provider));
                self.menu = Some(menu);
                self.input = String::new();
                KeyAction::Continue
            },
            command::Outcome::OpenModelMenu => {
                let menu = Menu::model(&self.provider, &self.model, Vec::new(), settings);
                assert(crate::provider::model_names(Seq::<Model>::empty()) =~= Seq::<Seq<char>>::empty());
                assert(menu@ == model_menu_spec(s0.provider, s0.model, Seq::empty(), *settings));
                self.menu = Some(menu);
                let local_provider = LocalProvider::from_name(self.provider.name.as_str(), settings);
                self.input = String::new();
                KeyAction::DiscoverModels(local_provider)
            },
            command::Outcome::Ignored => {
                if prompt.as_str().is_empty() {
                    self.input = String::new();
                    KeyAction::Continue
                } else {
                    let d = self.send_prompt(prompt.as_str(), settings);
                    self.input = String::new();
                    KeyAction::SendChat(d)
                }
            },
        }
    }

    /// Handles a key press; the action says what the runner does next.
    pub fn handle_key(&mut self, key: Key, settings: &ProviderSettings) -> (a: KeyAction)
        requires
            old(self).wf(),
            (old(self).menu is Some && key is Enter) ==> old(self).menu->Some_0.items@.len() > 0,
        ensures
            (final(self)@, action_kind(a)) == key_spec(old(self)@, key, *settings),
            final(self).wf(),
            a matches KeyAction::SendChat(d) ==> {
                &&& d.request.model.name@ == old(self)@.model
                &&& messages_view(d.request.messages@) == old(self)@.messages.push(
                    (MessageRole::User, trim_spec(old(self)@.input)),
                )
                &&& d.request_index == old(self)@.requests.len()
                &&& d.reasoning_message_index == old(self)@.messages.len() + 1
                &&& d.message_index == old(self)@.messages.len() + 2
                &&& selects_provider(old(self)@.provider, *settings, d.provider)
                &&& final(self)@.messages.len() == d.message_index + 1
                &&& final(self)@.messages.take(old(self)@.messages.len() as int)
                    == old(self)@.messages
                &&& final(self)@.messages[d.reasoning_message_index - 1] == (
                    MessageRole::User,
                    trim_spec(old(self)@.input),
                )
                &&& final(self)@.messages[d.reasoning_message_index as int] == (
                    MessageRole::Reasoning,
                    Seq::<char>::empty(),
                )
                &&& final(self)@.messages[d.message_index as int] == (
                    MessageRole::Assistant,
                    Seq::<char>::empty(),
                )
            },
            a matches KeyAction::DiscoverModels(p) ==> selects_provider(
                old(self)@.provider,
                *settings,
                p,
            ),
    {
        if self.menu.is_some() {
            self.handle_menu_key(key, settings);
            return KeyAction::Continue;
        }
        match key {
            Key::Esc => KeyAction::Exit,
            Key::F12 => {
                self.devtools_visible = !self.devtools_visible;
                self.devtools_scroll = u16::MAX;
                KeyAction::Continue
            },
            Key::Tab => {
                if self.devtools_visible {
                    self.devtools_tab = self.devtools_tab.toggle();
                    self.devtools_scroll = u16::MAX;
                }
                KeyAction::Continue
            },
            Key::Up => {
                if self.devtools_visible {
                    self.devtools_scroll = self.devtools_scroll.saturating_sub(1);
                } else {
                    self.messages_scroll = self.messages_scroll.saturating_sub(1);
                    self.messages_follow_tail = false;
                }
                KeyAction::Continue
            },
            Key::Down => {
                if self.devtools_visible {
                    self.devtools_scroll = self.devtools_scroll.saturating_add(1);
                } else {
                    self.messages_scroll = self.messages_scroll.saturating_add(1);
                    self.messages_follow_tail = true;
                }
                KeyAction::Continue
            },
            Key::PageUp => {
                if self.devtools_visible {
                    self.devtools_scroll = self.devtools_scroll.saturating_sub(5);
                } else {
                    self.messages_scroll = self.messages_scroll.saturating_sub(5);
                    self.messages_follow_tail = false;
                }
                KeyAction::Continue
            },
            Key::PageDown => {
                if self.devtools_visible {
                    self.devtools_scroll = self.devtools_scroll.saturating_add(5);
                } else {
                    self.messages_scroll = self.messages_scroll.saturating_add(5);
                    self.messages_follow_tail = true;
                }
                KeyAction::Continue
            },
            Key::Enter { control } => {
                if control {
                    push_char(&mut self.input, '\n');
                    KeyAction::Continue
                } else {
                    self.handle_enter(settings)
                }
            },
            Key::Char { c, control } => {
                if control && c == 'j' {
                    push_char(&mut self.input, '\n');
                } else {
                    push_char(&mut self.input, c);
                }
                KeyAction::Continue
            },
            Key::Backspace => {
                pop_char(&mut self.input);
                KeyAction::Continue
            },
            Key::Other => KeyAction::Continue,
        }
    }
}


/// The colour of the rule drawn under a transcript message of this role.
pub fn message_border_color(role: MessageRole) -> (c: TermColor)
    ensures
        c == match role {
            MessageRole::User => TermColor::Blue,
            MessageRole::Assistant => TermColor::White,
            MessageRole::System => TermColor::Yellow,
            MessageRole::Tool => TermColor::Magenta,
            MessageRole::Diagnostic => TermColor::Red,
            MessageRole::Reasoning => TermColor::Cyan,
        },
{
    match role {
        MessageRole::User => TermColor::Blue,
        MessageRole::Assistant => TermColor::White,
        MessageRole::System => TermColor::Yellow,
        MessageRole::Tool => TermColor::Magenta,
        MessageRole::Diagnostic => TermColor::Red,
        MessageRole::Reasoning => TermColor::Cyan,
    }
}

/// Whether the title of `tab` is drawn highlighted (black on white): it is
/// the selected tab.
pub fn devtools_tab_highlighted(tab: DevtoolsTab, selected: DevtoolsTab) -> (b: bool)
    ensures
        b == (tab == selected),
{
    tab == selected
}

} // verus!
