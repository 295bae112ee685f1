//! The palette of handler templates: their names and icons, the handler
//! each one creates, and the template a handler comes from.
use vstd::prelude::*;
use crate::editor::{empty_param, literal_param};
use crate::map::StrMap;
use crate::workflow::{Action, BindValue, Extraction, Handler, KeyAction, Sequence, Step};

verus! {

/// A template that the palette offers.
#[derive(Debug, Clone, Copy, PartialEq, Eq, Structural)]
pub enum PaletteKind {
    Navigate,
    NavigateHref,
    NewTab,
    Refresh,
    Backward,
    Forward,
    Click,
    ClickByText,
    WaitFor,
    Wait,
    ScrollAll,
    ScrollDown,
    ScrollUp,
    Type,
    ClearAndType,
    PressKey,
    SwitchToFrame,
    SwitchToDefaultContent,
    SwitchTab,
    CloseTab,
    SwitchToLastTab,
    GetHTML,
    DismissPermission,
    ExtractText,
    ExtractAttribute,
    ExtractCount,
    ExtractExists,
    ExtractMultipleText,
    Container,
    SubSequence,
}

/// The template a handler comes from.
pub open spec fn kind_of(h: Handler) -> PaletteKind {
    match h {
        Handler::Item(Step::Act(Action::Navigate { .. })) => PaletteKind::Navigate,
        Handler::Item(Step::Act(Action::NavigateHref { .. })) => PaletteKind::NavigateHref,
        Handler::Item(Step::Act(Action::NewTab { .. })) => PaletteKind::NewTab,
        Handler::Item(Step::Act(Action::Refresh)) => PaletteKind::Refresh,
        Handler::Item(Step::Act(Action::Backward)) => PaletteKind::Backward,
        Handler::Item(Step::Act(Action::Forward)) => PaletteKind::Forward,
        Handler::Item(Step::Act(Action::Click { .. })) => PaletteKind::Click,
        Handler::Item(Step::Act(Action::ClickByText { .. })) => PaletteKind::ClickByText,
        Handler::Item(Step::Act(Action::WaitFor { .. })) => PaletteKind::WaitFor,
        Handler::Item(Step::Act(Action::Wait { .. })) => PaletteKind::Wait,
        Handler::Item(Step::Act(Action::ScrollAll)) => PaletteKind::ScrollAll,
        Handler::Item(Step::Act(Action::ScrollDown { .. })) => PaletteKind::ScrollDown,
        Handler::Item(Step::Act(Action::ScrollUp { .. })) => PaletteKind::ScrollUp,
        Handler::Item(Step::Act(Action::Type { .. })) => PaletteKind::Type,
        Handler::Item(Step::Act(Action::ClearAndType { .. })) => PaletteKind::ClearAndType,
        Handler::Item(Step::Act(Action::PressKey { .. })) => PaletteKind::PressKey,
        Handler::Item(Step::Act(Action::SwitchToFrame { .. })) => PaletteKind::SwitchToFrame,
        Handler::Item(Step::Act(Action::SwitchToDefaultContent)) => PaletteKind::SwitchToDefaultContent,
        Handler::Item(Step::Act(Action::SwitchTab { .. })) => PaletteKind::SwitchTab,
        Handler::Item(Step::Act(Action::CloseTab)) => PaletteKind::CloseTab,
        Handler::Item(Step::Act(Action::SwitchToLastTab)) => PaletteKind::SwitchToLastTab,
        Handler::Item(Step::Act(Action::GetHTML { .. })) => PaletteKind::GetHTML,
        Handler::Item(Step::Act(Action::DismissPermission)) => PaletteKind::DismissPermission,
        Handler::Item(Step::Extract(Extraction::Text { .. })) => PaletteKind::ExtractText,
        Handler::Item(Step::Extract(Extraction::Attribute { .. })) => PaletteKind::ExtractAttribute,
        Handler::Item(Step::Extract(Extraction::Count { .. })) => PaletteKind::ExtractCount,
        Handler::Item(Step::Extract(Extraction::Exists { .. })) => PaletteKind::ExtractExists,
        Handler::Item(Step::Extract(Extraction::MultipleText { .. })) => PaletteKind::ExtractMultipleText,
        Handler::Container { .. } => PaletteKind::Container,
        Handler::SubSequence(_) => PaletteKind::SubSequence,
    }
}

/// The template a handler comes from.
pub fn palette_kind_for(h: &Handler) -> (k: PaletteKind)
    ensures
        k == kind_of(*h),
{
    match h {
        Handler::Item(Step::Act(Action::Navigate { .. })) => PaletteKind::Navigate,
        Handler::Item(Step::Act(Action::NavigateHref { .. })) => PaletteKind::NavigateHref,
        Handler::Item(Step::Act(Action::NewTab { .. })) => PaletteKind::NewTab,
        Handler::Item(Step::Act(Action::Refresh)) => PaletteKind::Refresh,
        Handler::Item(Step::Act(Action::Backward)) => PaletteKind::Backward,
        Handler::Item(Step::Act(Action::Forward)) => PaletteKind::Forward,
        Handler::Item(Step::Act(Action::Click { .. })) => PaletteKind::Click,
        Handler::Item(Step::Act(Action::ClickByText { .. })) => PaletteKind::ClickByText,
        Handler::Item(Step::Act(Action::WaitFor { .. })) => PaletteKind::WaitFor,
        Handler::Item(Step::Act(Action::Wait { .. })) => PaletteKind::Wait,
        Handler::Item(Step::Act(Action::ScrollAll)) => PaletteKind::ScrollAll,
        Handler::Item(Step::Act(Action::ScrollDown { .. })) => PaletteKind::ScrollDown,
        Handler::Item(Step::Act(Action::ScrollUp { .. })) => PaletteKind::ScrollUp,
        Handler::Item(Step::Act(Action::Type { .. })) => PaletteKind::Type,
        Handler::Item(Step::Act(Action::ClearAndType { .. })) => PaletteKind::ClearAndType,
        Handler::Item(Step::Act(Action::PressKey { .. })) => PaletteKind::PressKey,
        Handler::Item(Step::Act(Action::SwitchToFrame { .. })) => PaletteKind::SwitchToFrame,
        Handler::Item(Step::Act(Action::SwitchToDefaultContent)) => PaletteKind::SwitchToDefaultContent,
        Handler::Item(Step::Act(Action::SwitchTab { .. })) => PaletteKind::SwitchTab,
        Handler::Item(Step::Act(Action::CloseTab)) => PaletteKind::CloseTab,
        Handler::Item(Step::Act(Action::SwitchToLastTab)) => PaletteKind::SwitchToLastTab,
        Handler::Item(Step::Act(Action::GetHTML { .. })) => PaletteKind::GetHTML,
        Handler::Item(Step::Act(Action::DismissPermission)) => PaletteKind::DismissPermission,
        Handler::Item(Step::Extract(Extraction::Text { .. })) => PaletteKind::ExtractText,
        Handler::Item(Step::Extract(Extraction::Attribute { .. })) => PaletteKind::ExtractAttribute,
        Handler::Item(Step::Extract(Extraction::Count { .. })) => PaletteKind::ExtractCount,
        Handler::Item(Step::Extract(Extraction::Exists { .. })) => PaletteKind::ExtractExists,
        Handler::Item(Step::Extract(Extraction::MultipleText { .. })) => PaletteKind::ExtractMultipleText,
        Handler::Container { .. } => PaletteKind::Container,
        Handler::SubSequence(_) => PaletteKind::SubSequence,
    }
}

/// `h` is the fresh handler that template `k` creates: empty texts, the
/// preset numbers, no bindings.
pub open spec fn is_template(k: PaletteKind, h: Handler) -> bool {
    match k {
        PaletteKind::Navigate => h matches Handler::Item(Step::Act(Action::Navigate { url })) && empty_param(url),
        PaletteKind::NavigateHref => h matches Handler::Item(Step::Act(Action::NavigateHref { base, href })) && empty_param(base) && empty_param(href),
        PaletteKind::NewTab => h matches Handler::Item(Step::Act(Action::NewTab { url })) && empty_param(url),
        PaletteKind::Refresh => h == Handler::Item(Step::Act(Action::Refresh)),
        PaletteKind::Backward => h == Handler::Item(Step::Act(Action::Backward)),
        PaletteKind::Forward => h == Handler::Item(Step::Act(Action::Forward)),
        PaletteKind::Click => h matches Handler::Item(Step::Act(Action::Click { selector_string })) && empty_param(selector_string),
        PaletteKind::ClickByText => h matches Handler::Item(Step::Act(Action::ClickByText { selector_string, text })) && empty_param(selector_string) && empty_param(text),
        PaletteKind::WaitFor => h matches Handler::Item(Step::Act(Action::WaitFor { selector_string, time_ms })) && empty_param(selector_string) && literal_param(time_ms, 5000),
        PaletteKind::Wait => h matches Handler::Item(Step::Act(Action::Wait { time_ms })) && literal_param(time_ms, 1000),
        PaletteKind::ScrollAll => h == Handler::Item(Step::Act(Action::ScrollAll)),
        PaletteKind::ScrollDown => h matches Handler::Item(Step::Act(Action::ScrollDown { scroll })) && literal_param(scroll, 500),
        PaletteKind::ScrollUp => h matches Handler::Item(Step::Act(Action::ScrollUp { scroll })) && literal_param(scroll, 500),
        PaletteKind::Type => h matches Handler::Item(Step::Act(Action::Type { selector, text })) && empty_param(selector) && empty_param(text),
        PaletteKind::ClearAndType => h matches Handler::Item(Step::Act(Action::ClearAndType { selector, text })) && empty_param(selector) && empty_param(text),
        PaletteKind::PressKey => h == Handler::Item(Step::Act(Action::PressKey { key: KeyAction::Enter })),
        PaletteKind::SwitchToFrame => h matches Handler::Item(Step::Act(Action::SwitchToFrame { selector_string })) && empty_param(selector_string),
        PaletteKind::SwitchToDefaultContent => h == Handler::Item(Step::Act(Action::SwitchToDefaultContent)),
        PaletteKind::SwitchTab => h matches Handler::Item(Step::Act(Action::SwitchTab { index })) && literal_param(index, 0),
        PaletteKind::CloseTab => h == Handler::Item(Step::Act(Action::CloseTab)),
        PaletteKind::SwitchToLastTab => h == Handler::Item(Step::Act(Action::SwitchToLastTab)),
        PaletteKind::GetHTML => h matches Handler::Item(Step::Act(Action::GetHTML { selector_string, time_ms })) && empty_param(selector_string) && literal_param(time_ms, 5000),
        PaletteKind::DismissPermission => h == Handler::Item(Step::Act(Action::DismissPermission)),
        PaletteKind::ExtractText => h matches Handler::Item(Step::Extract(Extraction::Text { selector_string, field_name })) && empty_param(selector_string) && empty_param(field_name),
        PaletteKind::ExtractAttribute => h matches Handler::Item(Step::Extract(Extraction::Attribute { selector_string, field_name, attr_str })) && empty_param(selector_string) && empty_param(field_name) && empty_param(attr_str),
        PaletteKind::ExtractCount => h matches Handler::Item(Step::Extract(Extraction::Count { selector_string, field_name })) && empty_param(selector_string) && empty_param(field_name),
        PaletteKind::ExtractExists => h matches Handler::Item(Step::Extract(Extraction::Exists { selector_string, field_name })) && empty_param(selector_string) && empty_param(field_name),
        PaletteKind::ExtractMultipleText => h matches Handler::Item(Step::Extract(Extraction::MultipleText { selector_string, field_name })) && empty_param(selector_string) && empty_param(field_name),
        PaletteKind::Container => h matches Handler::Container { selector, steps, dedup } && empty_param(selector) && steps@.len() == 0 && !dedup,
        PaletteKind::SubSequence => h matches Handler::SubSequence(s) && s.sequence_name@.len() == 0 && s.step_sequence@.len() == 0 && s.target_data@ == Map::<Seq<char>, String>::empty() && s.metadata@.len() == 0,
    }
}

impl PaletteKind {
    /// The icon of the template.
    pub open spec fn icon_spec(self) -> Seq<char> {
        match self {
            PaletteKind::Navigate => "🔗"@,
            PaletteKind::NavigateHref => "🔗"@,
            PaletteKind::NewTab => "➕"@,
            PaletteKind::Refresh => "🔄"@,
            PaletteKind::Backward => "◀️"@,
            PaletteKind::Forward => "▶️"@,
            PaletteKind::Click => "👆"@,
            PaletteKind::ClickByText => "🔤"@,
            PaletteKind::WaitFor => "⏳"@,
            PaletteKind::Wait => "⏱️"@,
            PaletteKind::ScrollAll => "📜"@,
            PaletteKind::ScrollDown => "⬇️"@,
            PaletteKind::ScrollUp => "⬆️"@,
            PaletteKind::Type => "⌨️"@,
            PaletteKind::ClearAndType => "🔁"@,
            PaletteKind::PressKey => "⌨️"@,
            PaletteKind::SwitchToFrame => "🖼️"@,
            PaletteKind::SwitchToDefaultContent => "🏠"@,
            PaletteKind::SwitchTab => "🔢"@,
            PaletteKind::CloseTab => "✖️"@,
            PaletteKind::SwitchToLastTab => "↩️"@,
            PaletteKind::GetHTML => "📄"@,
            PaletteKind::DismissPermission => "🚫"@,
            PaletteKind::ExtractText => "📝"@,
            PaletteKind::ExtractAttribute => "🏷️"@,
            PaletteKind::ExtractCount => "🔢"@,
            PaletteKind::ExtractExists => "❓"@,
            PaletteKind::ExtractMultipleText => "📋"@,
            PaletteKind::Container => "📦"@,
            PaletteKind::SubSequence => "🔄"@,
        }
    }

    /// The icon of the template.
    pub fn icon(&self) -> (r: &'static str)
        ensures
            r@ == self.icon_spec(),
    {
        match self {
            PaletteKind::Navigate => "🔗",
            PaletteKind::NavigateHref => "🔗",
            PaletteKind::NewTab => "➕",
            PaletteKind::Refresh => "🔄",
            PaletteKind::Backward => "◀️",
            PaletteKind::Forward => "▶️",
            PaletteKind::Click => "👆",
            PaletteKind::ClickByText => "🔤",
            PaletteKind::WaitFor => "⏳",
            PaletteKind::Wait => "⏱️",
            PaletteKind::ScrollAll => "📜",
            PaletteKind::ScrollDown => "⬇️",
            PaletteKind::ScrollUp => "⬆️",
            PaletteKind::Type => "⌨️",
            PaletteKind::ClearAndType => "🔁",
            PaletteKind::PressKey => "⌨️",
            PaletteKind::SwitchToFrame => "🖼️",
            PaletteKind::SwitchToDefaultContent => "🏠",
            PaletteKind::SwitchTab => "🔢",
            PaletteKind::CloseTab => "✖️",
            PaletteKind::SwitchToLastTab => "↩️",
            PaletteKind::GetHTML => "📄",
            PaletteKind::DismissPermission => "🚫",
            PaletteKind::ExtractText => "📝",
            PaletteKind::ExtractAttribute => "🏷️",
            PaletteKind::ExtractCount => "🔢",
            PaletteKind::ExtractExists => "❓",
            PaletteKind::ExtractMultipleText => "📋",
            PaletteKind::Container => "📦",
            PaletteKind::SubSequence => "🔄",
        }
    }

    /// The name the palette shows.
    pub open spec fn name_spec(self) -> Seq<char> {
        match self {
            PaletteKind::Navigate => "Navigate"@,
            PaletteKind::NavigateHref => "Navigate Href"@,
            PaletteKind::NewTab => "New Tab"@,
            PaletteKind::Refresh => "Refresh"@,
            PaletteKind::Backward => "Back"@,
            PaletteKind::Forward => "Forward"@,
            PaletteKind::Click => "Click"@,
            PaletteKind::ClickByText => "Click Text"@,
            PaletteKind::WaitFor => "Wait For"@,
            PaletteKind::Wait => "Wait"@,
            PaletteKind::ScrollAll => "Scroll All"@,
            PaletteKind::ScrollDown => "Scroll Down"@,
            PaletteKind::ScrollUp => "Scroll Up"@,
            PaletteKind::Type => "Type"@,
            PaletteKind::ClearAndType => "Clear & Type"@,
            PaletteKind::PressKey => "Press Key"@,
            PaletteKind::SwitchToFrame => "Switch Frame"@,
            PaletteKind::SwitchToDefaultContent => "Default Frame"@,
            PaletteKind::SwitchTab => "Switch Tab"@,
            PaletteKind::CloseTab => "Close Tab"@,
            PaletteKind::SwitchToLastTab => "Last Tab"@,
            PaletteKind::GetHTML => "Get HTML"@,
            PaletteKind::DismissPermission => "Dismiss"@,
            PaletteKind::ExtractText => "Text"@,
            PaletteKind::ExtractAttribute => "Attribute"@,
            PaletteKind::ExtractCount => "Count"@,
            PaletteKind::ExtractExists => "Exists"@,
            PaletteKind::ExtractMultipleText => "Multi Text"@,
            PaletteKind::Container => "Container"@,
            PaletteKind::SubSequence => "SubSequence"@,
        }
    }

    /// The name the palette shows.
    pub fn display_name(&self) -> (r: &'static str)
        ensures
            r@ == self.name_spec(),
    {
        match self {
            PaletteKind::Navigate => "Navigate",
            PaletteKind::NavigateHref => "Navigate Href",
            PaletteKind::NewTab => "New Tab",
            PaletteKind::Refresh => "Refresh",
            PaletteKind::Backward => "Back",
            PaletteKind::Forward => "Forward",
            PaletteKind::Click => "Click",
            PaletteKind::ClickByText => "Click Text",
            PaletteKind::WaitFor => "Wait For",
            PaletteKind::Wait => "Wait",
            PaletteKind::ScrollAll => "Scroll All",
            PaletteKind::ScrollDown => "Scroll Down",
            PaletteKind::ScrollUp => "Scroll Up",
            PaletteKind::Type => "Type",
            PaletteKind::ClearAndType => "Clear & Type",
            PaletteKind::PressKey => "Press Key",
            PaletteKind::SwitchToFrame => "Switch Frame",
            PaletteKind::SwitchToDefaultContent => "Default Frame",
            PaletteKind::SwitchTab => "Switch Tab",
            PaletteKind::CloseTab => "Close Tab",
            PaletteKind::SwitchToLastTab => "Last Tab",
            PaletteKind::GetHTML => "Get HTML",
            PaletteKind::DismissPermission => "Dismiss",
            PaletteKind::ExtractText => "Text",
            PaletteKind::ExtractAttribute => "Attribute",
            PaletteKind::ExtractCount => "Count",
            PaletteKind::ExtractExists => "Exists",
            PaletteKind::ExtractMultipleText => "Multi Text",
            PaletteKind::Container => "Container",
            PaletteKind::SubSequence => "SubSequence",
        }
    }

    /// The fresh handler the template creates; it comes from this template.
    pub fn default_handler(&self) -> (h: Handler)
        ensures
            is_template(*self, h),
            kind_of(h) == *self,
    {
        match self {
            PaletteKind::Navigate => Handler::Item(Step::Act(Action::Navigate { url: BindValue::new(String::new()) })),
            PaletteKind::NavigateHref => Handler::Item(Step::Act(Action::NavigateHref { base: BindValue::new(String::new()), href: BindValue::new(String::new()) })),
            PaletteKind::NewTab => Handler::Item(Step::Act(Action::NewTab { url: BindValue::new(String::new()) })),
            PaletteKind::Refresh => Handler::Item(Step::Act(Action::Refresh)),
            PaletteKind::Backward => Handler::Item(Step::Act(Action::Backward)),
            PaletteKind::Forward => Handler::Item(Step::Act(Action::Forward)),
            PaletteKind::Click => Handler::Item(Step::Act(Action::Click { selector_string: BindValue::new(String::new()) })),
            PaletteKind::ClickByText => Handler::Item(Step::Act(Action::ClickByText { selector_string: BindValue::new(String::new()), text: BindValue::new(String::new()) })),
            PaletteKind::WaitFor => Handler::Item(Step::Act(Action::WaitFor { selector_string: BindValue::new(String::new()), time_ms: BindValue::new(5000) })),
            PaletteKind::Wait => Handler::Item(Step::Act(Action::Wait { time_ms: BindValue::new(1000) })),
            PaletteKind::ScrollAll => Handler::Item(Step::Act(Action::ScrollAll)),
            PaletteKind::ScrollDown => Handler::Item(Step::Act(Action::ScrollDown { scroll: BindValue::new(500) })),
            PaletteKind::ScrollUp => Handler::Item(Step::Act(Action::ScrollUp { scroll: BindValue::new(500) })),
            PaletteKind::Type => Handler::Item(Step::Act(Action::Type { selector: BindValue::new(String::new()), text: BindValue::new(String::new()) })),
            PaletteKind::ClearAndType => Handler::Item(Step::Act(Action::ClearAndType { selector: BindValue::new(String::new()), text: BindValue::new(String::new()) })),
            PaletteKind::PressKey => Handler::Item(Step::Act(Action::PressKey { key: KeyAction::Enter })),
            PaletteKind::SwitchToFrame => Handler::Item(Step::Act(Action::SwitchToFrame { selector_string: BindValue::new(String::new()) })),
            PaletteKind::SwitchToDefaultContent => Handler::Item(Step::Act(Action::SwitchToDefaultContent)),
            PaletteKind::SwitchTab => Handler::Item(Step::Act(Action::SwitchTab { index: BindValue::new(0) })),
            PaletteKind::CloseTab => Handler::Item(Step::Act(Action::CloseTab)),
            PaletteKind::SwitchToLastTab => Handler::Item(Step::Act(Action::SwitchToLastTab)),
            PaletteKind::GetHTML => Handler::Item(Step::Act(Action::GetHTML { selector_string: BindValue::new(String::new()), time_ms: BindValue::new(5000) })),
            PaletteKind::DismissPermission => Handler::Item(Step::Act(Action::DismissPermission)),
            PaletteKind::ExtractText => Handler::Item(Step::Extract(Extraction::Text { selector_string: BindValue::new(String::new()), field_name: BindValue::new(String::new()) })),
            PaletteKind::ExtractAttribute => Handler::Item(Step::Extract(Extraction::Attribute { selector_string: BindValue::new(String::new()), field_name: BindValue::new(String::new()), attr_str: BindValue::new(String::new()) })),
            PaletteKind::ExtractCount => Handler::Item(Step::Extract(Extraction::Count { selector_string: BindValue::new(String::new()), field_name: BindValue::new(String::new()) })),
            PaletteKind::ExtractExists => Handler::Item(Step::Extract(Extraction::Exists { selector_string: BindValue::new(String::new()), field_name: BindValue::new(String::new()) })),
            PaletteKind::ExtractMultipleText => Handler::Item(Step::Extract(Extraction::MultipleText { selector_string: BindValue::new(String::new()), field_name: BindValue::new(String::new()) })),
            PaletteKind::Container => Handler::Container { selector: BindValue::new(String::new()), steps: Vec::new(), dedup: false },
            PaletteKind::SubSequence => Handler::SubSequence(Sequence { sequence_name: String::new(), step_sequence: Vec::new(), target_data: StrMap::new(), metadata: Vec::new() }),
        }
    }
}


/// The template whose palette name has this length, first character and
/// last character; no two names share all three.
spec fn kind_by_shape(len: int, first: char, last: char) -> Option<PaletteKind> {
    if len == 8 && first == 'N' && last == 'e' {
        Some(PaletteKind::Navigate)
    } else if len == 13 && first == 'N' && last == 'f' {
        Some(PaletteKind::NavigateHref)
    } else if len == 7 && first == 'N' && last == 'b' {
        Some(PaletteKind::NewTab)
    } else if len == 7 && first == 'R' && last == 'h' {
        Some(PaletteKind::Refresh)
    } else if len == 4 && first == 'B' && last == 'k' {
        Some(PaletteKind::Backward)
    } else if len == 7 && first == 'F' && last == 'd' {
        Some(PaletteKind::Forward)
    } else if len == 5 && first == 'C' && last == 'k' {
        Some(PaletteKind::Click)
    } else if len == 10 && first == 'C' && last == 't' {
        Some(PaletteKind::ClickByText)
    } else if len == 8 && first == 'W' && last == 'r' {
        Some(PaletteKind::WaitFor)
    } else if len == 4 && first == 'W' && last == 't' {
        Some(PaletteKind::Wait)
    } else if len == 10 && first == 'S' && last == 'l' {
        Some(PaletteKind::ScrollAll)
    } else if len == 11 && first == 'S' && last == 'n' {
        Some(PaletteKind::ScrollDown)
    } else if len == 9 && first == 'S' && last == 'p' {
        Some(PaletteKind::ScrollUp)
    } else if len == 4 && first == 'T' && last == 'e' {
        Some(PaletteKind::Type)
    } else if len == 12 && first == 'C' && last == 'e' {
        Some(PaletteKind::ClearAndType)
    } else if len == 9 && first == 'P' && last == 'y' {
        Some(PaletteKind::PressKey)
    } else if len == 12 && first == 'S' && last == 'e' {
        Some(PaletteKind::SwitchToFrame)
    } else if len == 13 && first == 'D' && last == 'e' {
        Some(PaletteKind::SwitchToDefaultContent)
    } else if len == 10 && first == 'S' && last == 'b' {
        Some(PaletteKind::SwitchTab)
    } else if len == 9 && first == 'C' && last == 'b' {
        Some(PaletteKind::CloseTab)
    } else if len == 8 && first == 'L' && last == 'b' {
        Some(PaletteKind::SwitchToLastTab)
    } else if len == 8 && first == 'G' && last == 'L' {
        Some(PaletteKind::GetHTML)
    } else if len == 7 && first == 'D' && last == 's' {
        Some(PaletteKind::DismissPermission)
    } else if len == 4 && first == 'T' && last == 't' {
        Some(PaletteKind::ExtractText)
    } else if len == 9 && first == 'A' && last == 'e' {
        Some(PaletteKind::ExtractAttribute)
    } else if len == 5 && first == 'C' && last == 't' {
        Some(PaletteKind::ExtractCount)
    } else if len == 6 && first == 'E' && last == 's' {
        Some(PaletteKind::ExtractExists)
    } else if len == 10 && first == 'M' && last == 't' {
        Some(PaletteKind::ExtractMultipleText)
    } else if len == 9 && first == 'C' && last == 'r' {
        Some(PaletteKind::Container)
    } else if len == 11 && first == 'S' && last == 'e' {
        Some(PaletteKind::SubSequence)
    } else {
        None
    }
}

/// Each palette name leads back to its template by its shape.
proof fn lemma_kind_by_shape(k: PaletteKind)
    ensures
        k.name_spec().len() > 0,
        kind_by_shape(
            k.name_spec().len() as int,
            k.name_spec()[0],
            k.name_spec()[k.name_spec().len() - 1],
        ) == Some(k),
{
    match k {
        PaletteKind::Navigate => {
            reveal_strlit("Navigate");
        },
        PaletteKind::NavigateHref => {
            reveal_strlit("Navigate Href");
        },
        PaletteKind::NewTab => {
            reveal_strlit("New Tab");
        },
        PaletteKind::Refresh => {
            reveal_strlit("Refresh");
        },
        PaletteKind::Backward => {
            reveal_strlit("Back");
        },
        PaletteKind::Forward => {
            reveal_strlit("Forward");
        },
        PaletteKind::Click => {
            reveal_strlit("Click");
        },
        PaletteKind::ClickByText => {
            reveal_strlit("Click Text");
        },
        PaletteKind::WaitFor => {
            reveal_strlit("Wait For");
        },
        PaletteKind::Wait => {
            reveal_strlit("Wait");
        },
        PaletteKind::ScrollAll => {
            reveal_strlit("Scroll All");
        },
        PaletteKind::ScrollDown => {
            reveal_strlit("Scroll Down");
        },
        PaletteKind::ScrollUp => {
            reveal_strlit("Scroll Up");
        },
        PaletteKind::Type => {
            reveal_strlit("Type");
        },
        PaletteKind::ClearAndType => {
            reveal_strlit("Clear & Type");
        },
        PaletteKind::PressKey => {
            reveal_strlit("Press Key");
        },
        PaletteKind::SwitchToFrame => {
            reveal_strlit("Switch Frame");
        },
        PaletteKind::SwitchToDefaultContent => {
            reveal_strlit("Default Frame");
        },
        PaletteKind::SwitchTab => {
            reveal_strlit("Switch Tab");
        },
        PaletteKind::CloseTab => {
            reveal_strlit("Close Tab");
        },
        PaletteKind::SwitchToLastTab => {
            reveal_strlit("Last Tab");
        },
        PaletteKind::GetHTML => {
            reveal_strlit("Get HTML");
        },
        PaletteKind::DismissPermission => {
            reveal_strlit("Dismiss");
        },
        PaletteKind::ExtractText => {
            reveal_strlit("Text");
        },
        PaletteKind::ExtractAttribute => {
            reveal_strlit("Attribute");
        },
        PaletteKind::ExtractCount => {
            reveal_strlit("Count");
        },
        PaletteKind::ExtractExists => {
            reveal_strlit("Exists");
        },
        PaletteKind::ExtractMultipleText => {
            reveal_strlit("Multi Text");
        },
        PaletteKind::Container => {
            reveal_strlit("Container");
        },
        PaletteKind::SubSequence => {
            reveal_strlit("SubSequence");
        },
    }
}

/// The palette names are non-empty, and two templates never share one.
pub proof fn law_names_distinct(k1: PaletteKind, k2: PaletteKind)
    ensures
        k1 != k2 ==> k1.name_spec() != k2.name_spec(),
        k1.name_spec().len() > 0,
{
    lemma_kind_by_shape(k1);
    lemma_kind_by_shape(k2);
}

} // verus!
