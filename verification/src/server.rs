//! What the language server decides: which request is which, what a change
//! does to the buffer, and where a definition lies.

use crate::completion::{
    completions_of, entries_view, get_completions, may_complete_on, receiver_at, CompletionEntry,
};
use crate::db::{records_view, rows_named, ClassRecord, ClassRecordView, SymbolIndex};
use crate::hover::{
    get_hover, hover_of, hover_target_at, may_hover_on, opt_hover, HoverTargetView, HoverText,
};
use crate::location::{Location, LocationView, Position};
use crate::resolver::{may_refer_to, reference_at, search_member_call_expressions};
use crate::syntax::{is_ascii_source, opt_text};
use crate::text::same_text;
use vstd::prelude::*;
use vstd::utf8::encode_utf8;

verus! {

/// What a request asks for.
#[derive(Debug, Clone, Copy, PartialEq, Eq, Structural)]
pub enum RequestKind {
    Hover,
    DidSave,
    Completion,
    Definition,
    /// None of these: it is answered with an error.
    Unsupported,
}

/// What a notification tells.
#[derive(Debug, Clone, Copy, PartialEq, Eq, Structural)]
pub enum NotificationKind {
    DidChange,
    DidOpen,
    /// None of these: it is passed over.
    Other,
}

/// The code of the error that answers an unsupported request.
pub const INVALID_REQUEST: i32 = -32600;

/// The message of the error that answers an unsupported request.
pub const UNSUPPORTED_REQUEST: &'static str = "Unsupported Request";

/// What the request with this method asks for.
pub open spec fn request_kind(method: Seq<char>) -> RequestKind {
    if method == "textDocument/hover"@ {
        RequestKind::Hover
    } else if method == "textDocument/didSave"@ {
        RequestKind::DidSave
    } else if method == "textDocument/completion"@ {
        RequestKind::Completion
    } else if method == "textDocument/definition"@ {
        RequestKind::Definition
    } else {
        RequestKind::Unsupported
    }
}

/// What the notification with this method tells.
pub open spec fn notification_kind(method: Seq<char>) -> NotificationKind {
    if method == "textDocument/didChange"@ {
        NotificationKind::DidChange
    } else if method == "textDocument/didOpen"@ {
        NotificationKind::DidOpen
    } else {
        NotificationKind::Other
    }
}

/// What the request with this method asks for.
pub fn classify_request(method: &str) -> (kind: RequestKind)
    ensures
        kind == request_kind(method@),
{
    if same_text(method, "textDocument/hover") {
        RequestKind::Hover
    } else if same_text(method, "textDocument/didSave") {
        RequestKind::DidSave
    } else if same_text(method, "textDocument/completion") {
        RequestKind::Completion
    } else if same_text(method, "textDocument/definition") {
        RequestKind::Definition
    } else {
        RequestKind::Unsupported
    }
}

/// What the notification with this method tells.
pub fn classify_notification(method: &str) -> (kind: NotificationKind)
    ensures
        kind == notification_kind(method@),
{
    if same_text(method, "textDocument/didChange") {
        NotificationKind::DidChange
    } else if same_text(method, "textDocument/didOpen") {
        NotificationKind::DidOpen
    } else {
        NotificationKind::Other
    }
}

/// The places of a list of records.
pub open spec fn locations_of(rows: Seq<ClassRecordView>) -> Seq<LocationView> {
    Seq::new(rows.len(), |i: int| rows[i].location)
}

/// The views of a list of locations.
pub open spec fn locations_view(locations: Seq<Location>) -> Seq<LocationView> {
    Seq::new(locations.len(), |i: int| locations[i]@)
}

/// The places of a list of records, one for each.
pub fn record_locations(records: &Vec<ClassRecord>) -> (locations: Vec<Location>)
    ensures
        locations_view(locations@) == locations_of(records_view(records@)),
{
    let mut locations: Vec<Location> = Vec::new();
    let mut i: usize = 0;
    while i < records.len()
        invariant
            i <= records.len(),
            locations.len() == i,
            forall|k: int| 0 <= k < i ==> locations[k]@ == records[k]@.location,
        decreases records.len() - i,
    {
        locations.push(records[i].location.clone());
        i += 1;
    }
    assert(locations_view(locations@) =~= locations_of(records_view(records@)));
    locations
}

/// Where the name that the cursor is on is declared, given the rows of the
/// index: the place of every row with that name; nowhere without a name.
pub open spec fn definition_of(name: Option<Seq<char>>, rows: Seq<ClassRecordView>) -> Seq<
    LocationView,
> {
    match name {
        Some(fqn) => locations_of(rows_named(rows, fqn)),
        None => Seq::empty(),
    }
}

/// Where the symbol under the cursor is declared: the place of every
/// record that the index has under the name that the cursor resolves to. In
/// an ASCII document that name is what `reference_at` gives; in any
/// document it is one that the cursor can resolve to there.
///
/// The lookup is by the exact name, and the resolver gives names without a
/// backslash at their start. A record that the class indexer saved is under
/// a name from the root, `\N\C::m`, and is not found by a name that the
/// resolver gives, `N\C::m`; a record saved under the name without the
/// backslash is.
pub fn get_definition(index: &SymbolIndex, contents: &[u8], position: &Position) -> (locations:
    Vec<Location>)
    ensures
        exists|name: Option<Seq<char>>|
            #![trigger may_refer_to(contents@, *position, name)]
            may_refer_to(contents@, *position, name) && locations_view(locations@)
                == definition_of(name, index@),
        is_ascii_source(contents@) ==> locations_view(locations@) == definition_of(
            reference_at(contents@, *position),
            index@,
        ),
{
    let fqn = search_member_call_expressions(contents, position);
    let ghost name = opt_text(fqn);
    let locations = match fqn {
        Some(fqn) => {
            let records = index.find_by_fqn(fqn.as_str());
            record_locations(&records)
        },
        None => {
            let locations: Vec<Location> = Vec::new();
            assert(locations_view(locations@) =~= Seq::<LocationView>::empty());
            locations
        },
    };
    assert(locations_view(locations@) == definition_of(name, index@));
    locations
}

/// The text that a change leaves in the buffer: the first of the texts that
/// come with it, empty where none comes.
pub open spec fn text_after(changes: Seq<String>) -> Seq<char> {
    if changes.len() > 0 {
        changes[0]@
    } else {
        Seq::empty()
    }
}

/// What the server holds between two messages: the text of the open buffer.
#[derive(Debug)]
pub struct ServerState {
    pub current_buffer: String,
}

impl ServerState {
    /// A server with an empty buffer.
    pub fn new() -> (state: ServerState)
        ensures
            state.current_buffer@ == Seq::<char>::empty(),
    {
        ServerState { current_buffer: String::new() }
    }

    /// A document was opened: its text is the buffer.
    pub fn on_did_open(&mut self, text: String)
        ensures
            final(self).current_buffer@ == text@,
    {
        self.current_buffer = text;
    }

    /// The document changed: the first of the texts that come with the
    /// change is the buffer, or the empty text where none comes.
    pub fn on_did_change(&mut self, changes: &Vec<String>)
        ensures
            final(self).current_buffer@ == text_after(changes@),
    {
        if changes.len() > 0 {
            self.current_buffer = changes[0].clone();
        } else {
            self.current_buffer = String::new();
        }
    }

    /// What is shown at the cursor in the buffer: what `get_hover` gives for
    /// the bytes of the buffer.
    pub fn get_hover(&self, index: &SymbolIndex, position: &Position) -> (hover: Option<HoverText>)
        ensures
            exists|target: Option<HoverTargetView>|
                #![trigger may_hover_on(encode_utf8(self.current_buffer@), *position, target)]
                may_hover_on(encode_utf8(self.current_buffer@), *position, target) && opt_hover(
                    hover,
                ) == hover_of(target, index@),
            is_ascii_source(encode_utf8(self.current_buffer@)) ==> opt_hover(hover) == hover_of(
                hover_target_at(encode_utf8(self.current_buffer@), *position),
                index@,
            ),
    {
        get_hover(index, self.current_buffer.as_str().as_bytes(), position)
    }

    /// The members to offer at the cursor in the buffer: what
    /// `get_completions` gives for the bytes of the buffer.
    pub fn get_completions(&self, index: &SymbolIndex, position: &Position) -> (entries: Vec<
        CompletionEntry,
    >)
        ensures
            exists|class: Option<Seq<char>>|
                #![trigger may_complete_on(encode_utf8(self.current_buffer@), *position, class)]
                may_complete_on(encode_utf8(self.current_buffer@), *position, class)
                    && entries_view(entries@) == completions_of(class, index@),
            is_ascii_source(encode_utf8(self.current_buffer@)) ==> entries_view(entries@)
                == completions_of(
                receiver_at(encode_utf8(self.current_buffer@), *position),
                index@,
            ),
    {
        get_completions(index, self.current_buffer.as_str().as_bytes(), position)
    }
}

} // verus!
