//! The line protocol spoken with the daemon: requests, replies and errors.

use crate::json::{array_view, json_text, parse, parsed, reads_as, render, flat, Json, JsonView};
use crate::text::{
    decimal, decimal_text, is_empty, join, join3, only_final_line_breaks_are_dropped, same,
    trim_line_breaks, without_line_breaks,
};
use vstd::prelude::*;
use vstd::utf8::encode_utf8;

verus! {

/// The longest request line, its line break included, that the daemon takes.
pub const MAX_REQUEST_BYTES: usize = 65536;

/// The longest reply line that is read.
pub const MAX_REPLY_BYTES: u64 = 4194304;

/// What can go wrong with a request.
#[derive(Debug)]
pub enum IpcError {
    /// The connection failed.
    Io(String),
    /// The reply is not what the verb promises, or the request is too long.
    Malformed(String),
    /// The daemon refused.
    ServerError(String),
    /// The daemon refused because the file is in use.
    Busy,
    /// The daemon does not know when the path was synced.
    Unknown { reason: String },
}

/// An [`IpcError`] with its texts as character sequences.
pub enum IpcErrorView {
    Io(Seq<char>),
    Malformed(Seq<char>),
    ServerError(Seq<char>),
    Busy,
    Unknown { reason: Seq<char> },
}

impl View for IpcError {
    type V = IpcErrorView;

    open spec fn view(&self) -> IpcErrorView {
        match self {
            IpcError::Io(s) => IpcErrorView::Io(s@),
            IpcError::Malformed(s) => IpcErrorView::Malformed(s@),
            IpcError::ServerError(s) => IpcErrorView::ServerError(s@),
            IpcError::Busy => IpcErrorView::Busy,
            IpcError::Unknown { reason } => IpcErrorView::Unknown { reason: reason@ },
        }
    }
}

impl IpcErrorView {
    /// The message shown to people.
    pub open spec fn message(self) -> Seq<char> {
        match self {
            IpcErrorView::Io(s) => "io: "@ + s,
            IpcErrorView::Malformed(s) => "malformed reply: "@ + s,
            IpcErrorView::ServerError(s) => "server reported error: "@ + s,
            IpcErrorView::Busy => "busy"@,
            IpcErrorView::Unknown { reason } => "unknown: "@ + reason,
        }
    }
}

impl IpcError {
    /// The message shown to people.
    pub fn message(&self) -> (r: String)
        ensures
            r@ == self@.message(),
    {
        match self {
            IpcError::Io(s) => join("io: ", s.as_str()),
            IpcError::Malformed(s) => join("malformed reply: ", s.as_str()),
            IpcError::ServerError(s) => join("server reported error: ", s.as_str()),
            IpcError::Busy => "busy".to_owned(),
            IpcError::Unknown { reason } => join("unknown: ", reason.as_str()),
        }
    }
}

/// One request, with its texts in `S`.
#[derive(Debug)]
#[allow(inconsistent_fields)]
pub enum Request<S> {
    OpenRead { handle_id: S, path: S },
    OpenWrite { handle_id: S, path: S, cache_path: S },
    /// Without a handle id the daemon registers no open handle.
    OpenWriteBegin { path: S, handle_id: Option<S> },
    CloseHandle { handle_id: S },
    Hydrate { path: S },
    Dehydrate { path: S },
    Subscribe,
    LastSynced { path: S },
    List { prefix: S },
    Mkdir { path: S },
    Unlink { path: S },
    Rmdir { path: S },
    Create { handle_id: S, path: S },
    Rename { old_path: S, new_path: S },
}

impl View for Request<String> {
    type V = Request<Seq<char>>;

    open spec fn view(&self) -> Request<Seq<char>> {
        match self {
            Request::OpenRead { handle_id, path } => Request::OpenRead {
                handle_id: handle_id@,
                path: path@,
            },
            Request::OpenWrite { handle_id, path, cache_path } => Request::OpenWrite {
                handle_id: handle_id@,
                path: path@,
                cache_path: cache_path@,
            },
            Request::OpenWriteBegin { path, handle_id } => Request::OpenWriteBegin {
                path: path@,
                handle_id: match handle_id {
                    Some(id) => Some(id@),
                    None => None,
                },
            },
            Request::CloseHandle { handle_id } => Request::CloseHandle { handle_id: handle_id@ },
            Request::Hydrate { path } => Request::Hydrate { path: path@ },
            Request::Dehydrate { path } => Request::Dehydrate { path: path@ },
            Request::Subscribe => Request::Subscribe,
            Request::LastSynced { path } => Request::LastSynced { path: path@ },
            Request::List { prefix } => Request::List { prefix: prefix@ },
            Request::Mkdir { path } => Request::Mkdir { path: path@ },
            Request::Unlink { path } => Request::Unlink { path: path@ },
            Request::Rmdir { path } => Request::Rmdir { path: path@ },
            Request::Create { handle_id, path } => Request::Create {
                handle_id: handle_id@,
                path: path@,
            },
            Request::Rename { old_path, new_path } => Request::Rename {
                old_path: old_path@,
                new_path: new_path@,
            },
        }
    }
}

/// The verb that a request names.
pub open spec fn verb(req: Request<Seq<char>>) -> Seq<char> {
    match req {
        Request::OpenRead { .. } => "hydration.open_read"@,
        Request::OpenWrite { .. } => "hydration.open_write"@,
        Request::OpenWriteBegin { .. } => "hydration.open_write_begin"@,
        Request::CloseHandle { .. } => "hydration.close_handle"@,
        Request::Hydrate { .. } => "hydration.hydrate"@,
        Request::Dehydrate { .. } => "hydration.dehydrate"@,
        Request::Subscribe => "hydration.subscribe"@,
        Request::LastSynced { .. } => "hydration.last_synced"@,
        Request::List { .. } => "hydration.list"@,
        Request::Mkdir { .. } => "hydration.mkdir"@,
        Request::Unlink { .. } => "hydration.unlink"@,
        Request::Rmdir { .. } => "hydration.rmdir"@,
        Request::Create { .. } => "hydration.create"@,
        Request::Rename { .. } => "hydration.rename"@,
    }
}

/// The fields of a request besides its verb, by name, in the order in which
/// they are put in.
pub open spec fn request_fields(req: Request<Seq<char>>) -> Seq<(Seq<char>, Seq<char>)> {
    match req {
        Request::OpenRead { handle_id, path } => seq![("handle_id"@, handle_id), ("path"@, path)],
        Request::OpenWrite { handle_id, path, cache_path } => seq![
            ("handle_id"@, handle_id),
            ("path"@, path),
            ("cache_path"@, cache_path),
        ],
        Request::OpenWriteBegin { path, handle_id } => match handle_id {
            Some(id) => seq![("path"@, path), ("handle_id"@, id)],
            None => seq![("path"@, path)],
        },
        Request::CloseHandle { handle_id } => seq![("handle_id"@, handle_id)],
        Request::Hydrate { path } => seq![("path"@, path)],
        Request::Dehydrate { path } => seq![("path"@, path)],
        Request::Subscribe => seq![],
        Request::LastSynced { path } => seq![("path"@, path)],
        Request::List { prefix } => seq![("prefix"@, prefix)],
        Request::Mkdir { path } => seq![("path"@, path)],
        Request::Unlink { path } => seq![("path"@, path)],
        Request::Rmdir { path } => seq![("path"@, path)],
        Request::Create { handle_id, path } => seq![("handle_id"@, handle_id), ("path"@, path)],
        Request::Rename { old_path, new_path } => seq![
            ("old_path"@, old_path),
            ("new_path"@, new_path),
        ],
    }
}

/// The object with the given text fields.
pub open spec fn text_object(fields: Seq<(Seq<char>, Seq<char>)>) -> Map<Seq<char>, JsonView>
    decreases fields.len(),
{
    if fields.len() == 0 {
        Map::empty()
    } else {
        text_object(fields.drop_last()).insert(fields.last().0, JsonView::Str(fields.last().1))
    }
}

/// The JSON object of a request: its verb under `"verb"`, and its fields.
pub open spec fn request_tree(req: Request<Seq<char>>) -> JsonView {
    JsonView::Object(text_object(seq![("verb"@, verb(req))] + request_fields(req)))
}

proof fn lemma_text_object_flat(fields: Seq<(Seq<char>, Seq<char>)>)
    ensures
        flat(JsonView::Object(text_object(fields))),
    decreases fields.len(),
{
    if fields.len() > 0 {
        lemma_text_object_flat(fields.drop_last());
    }
}

/// A growing list of text fields.
struct TextFields {
    fields: Vec<(String, Json)>,
    names: Ghost<Seq<(Seq<char>, Seq<char>)>>,
}

impl TextFields {
    spec fn wf(self) -> bool {
        crate::json::object_view(self.fields@) == text_object(self.names@)
    }

    fn new() -> (r: TextFields)
        ensures
            r.wf(),
            r.names@ == Seq::<(Seq<char>, Seq<char>)>::empty(),
    {
        TextFields { fields: Vec::new(), names: Ghost(Seq::empty()) }
    }

    fn with(self, name: &str, value: &str) -> (r: TextFields)
        requires
            self.wf(),
        ensures
            r.wf(),
            r.names@ == self.names@.push((name@, value@)),
    {
        let ghost before = self.fields@;
        let mut fields = self.fields;
        fields.push((name.to_owned(), Json::Str(value.to_owned())));
        let names = Ghost(self.names@.push((name@, value@)));
        assert(fields@.drop_last() =~= before);
        assert(names@.drop_last() =~= self.names@);
        assert(fields@.last().1@ == JsonView::Str(value@));
        TextFields { fields, names }
    }
}

fn verb_text(req: &Request<String>) -> (r: &'static str)
    ensures
        r@ == verb(req@),
{
    match req {
        Request::OpenRead { .. } => "hydration.open_read",
        Request::OpenWrite { .. } => "hydration.open_write",
        Request::OpenWriteBegin { .. } => "hydration.open_write_begin",
        Request::CloseHandle { .. } => "hydration.close_handle",
        Request::Hydrate { .. } => "hydration.hydrate",
        Request::Dehydrate { .. } => "hydration.dehydrate",
        Request::Subscribe => "hydration.subscribe",
        Request::LastSynced { .. } => "hydration.last_synced",
        Request::List { .. } => "hydration.list",
        Request::Mkdir { .. } => "hydration.mkdir",
        Request::Unlink { .. } => "hydration.unlink",
        Request::Rmdir { .. } => "hydration.rmdir",
        Request::Create { .. } => "hydration.create",
        Request::Rename { .. } => "hydration.rename",
    }
}

/// The JSON object of a request.
pub fn request_json(req: &Request<String>) -> (r: Json)
    ensures
        r@ == request_tree(req@),
{
    let start = TextFields::new().with("verb", verb_text(req));
    let all = match req {
        Request::OpenRead { handle_id, path } => start.with("handle_id", handle_id.as_str()).with(
            "path",
            path.as_str(),
        ),
        Request::OpenWrite { handle_id, path, cache_path } => start.with(
            "handle_id",
            handle_id.as_str(),
        ).with("path", path.as_str()).with("cache_path", cache_path.as_str()),
        Request::OpenWriteBegin { path, handle_id } => {
            let named = start.with("path", path.as_str());
            match handle_id {
                Some(id) => named.with("handle_id", id.as_str()),
                None => named,
            }
        },
        Request::CloseHandle { handle_id } => start.with("handle_id", handle_id.as_str()),
        Request::Hydrate { path } => start.with("path", path.as_str()),
        Request::Dehydrate { path } => start.with("path", path.as_str()),
        Request::Subscribe => start,
        Request::LastSynced { path } => start.with("path", path.as_str()),
        Request::List { prefix } => start.with("prefix", prefix.as_str()),
        Request::Mkdir { path } => start.with("path", path.as_str()),
        Request::Unlink { path } => start.with("path", path.as_str()),
        Request::Rmdir { path } => start.with("path", path.as_str()),
        Request::Create { handle_id, path } => start.with("handle_id", handle_id.as_str()).with(
            "path",
            path.as_str(),
        ),
        Request::Rename { old_path, new_path } => start.with("old_path", old_path.as_str()).with(
            "new_path",
            new_path.as_str(),
        ),
    };
    assert(all.names@ =~= seq![("verb"@, verb(req@))] + request_fields(req@));
    Json::Object(all.fields)
}

/// What is refused of a request whose line is `bytes` bytes long.
pub open spec fn too_long(bytes: nat) -> IpcErrorView {
    IpcErrorView::Malformed("request "@ + decimal(bytes) + " bytes exceeds 64 KiB JVM cap"@)
}

/// The line of a request, without its line break; or the refusal of a request
/// that is too long for the daemon. The line is one line, and whoever reads it
/// finds the request's verb and fields.
pub fn request_line(req: &Request<String>) -> (r: Result<String, IpcError>)
    ensures
        ({
            let text = json_text(request_tree(req@));
            let bytes = encode_utf8(text).len();
            if bytes + 1 > MAX_REQUEST_BYTES {
                r matches Err(e) && e@ == too_long(bytes)
            } else {
                r matches Ok(line) && line@ == text
            }
        }),
        r matches Ok(line) ==> !line@.contains('\n') && reads_as(line@, request_tree(req@)),
{
    let tree = request_json(req);
    proof {
        lemma_text_object_flat(seq![("verb"@, verb(req@))] + request_fields(req@));
    }
    let line = render(&tree);
    let bytes: usize = line.as_str().as_bytes().len();
    if bytes >= MAX_REQUEST_BYTES {
        let count = decimal_text(bytes as u64);
        return Err(
            IpcError::Malformed(
                join3("request ", count.as_str(), " bytes exceeds 64 KiB JVM cap"),
            ),
        );
    }
    Ok(line)
}

/// What the reply to `open_read` carries.
#[derive(Debug)]
pub struct OpenReadReply {
    pub cache_path: String,
}

/// What the reply to `open_write` carries.
#[derive(Debug)]
pub struct OpenWriteReply {
    pub cache_path: String,
}

/// What the reply to `open_write_begin` carries.
#[derive(Debug)]
pub struct OpenWriteBeginReply {
    pub cache_path: String,
}

/// What the reply to `create` carries. The handle id is the daemon's to choose.
#[derive(Debug)]
pub struct CreateReply {
    pub cache_path: String,
    pub handle_id: String,
}

/// One entry of the reply to `list`.
#[derive(Debug)]
pub struct ListEntry {
    pub path: String,
    pub size: u64,
    pub mtime_ms: i64,
    pub hydrated: bool,
    pub folder: bool,
}

/// A [`ListEntry`] with its path as a character sequence.
pub struct ListEntryView {
    pub path: Seq<char>,
    pub size: u64,
    pub mtime_ms: i64,
    pub hydrated: bool,
    pub folder: bool,
}

impl View for ListEntry {
    type V = ListEntryView;

    open spec fn view(&self) -> ListEntryView {
        ListEntryView {
            path: self.path@,
            size: self.size,
            mtime_ms: self.mtime_ms,
            hydrated: self.hydrated,
            folder: self.folder,
        }
    }
}

/// The complaint about a connection that ended where a line was due.
pub open spec fn end_of_file() -> IpcErrorView {
    IpcErrorView::Io("unexpected end of file"@)
}

/// What a received line is read as. An empty one means that the connection
/// ended.
pub open spec fn received(line: Seq<char>) -> Result<JsonView, IpcErrorView> {
    let trimmed = without_line_breaks(line);
    if line.len() == 0 {
        Err(end_of_file())
    } else {
        match parsed(trimmed) {
            Ok(value) => Ok(value),
            Err(complaint) => Err(IpcErrorView::Malformed(complaint + ": "@ + trimmed)),
        }
    }
}

/// The reply in a received line, which may end in a line break.
pub fn receive(line: &str) -> (r: Result<Json, IpcError>)
    ensures
        match r {
            Ok(reply) => received(line@) == Ok::<JsonView, IpcErrorView>(reply@),
            Err(e) => received(line@) == Err::<JsonView, IpcErrorView>(e@),
        },
{
    if is_empty(line) {
        return Err(IpcError::Io("unexpected end of file".to_owned()));
    }
    let trimmed = trim_line_breaks(line);
    match parse(trimmed.as_str()) {
        Ok(reply) => Ok(reply),
        Err(complaint) => Err(
            IpcError::Malformed(join3(complaint.as_str(), ": ", trimmed.as_str())),
        ),
    }
}

/// One event of a subscription: the received line without its line break.
pub fn receive_event(line: &str) -> (r: Result<String, IpcError>)
    ensures
        match r {
            Ok(event) => line@.len() > 0 && event@ == without_line_breaks(line@),
            Err(e) => line@.len() == 0 && e@ == end_of_file(),
        },
{
    if is_empty(line) {
        return Err(IpcError::Io("unexpected end of file".to_owned()));
    }
    Ok(trim_line_breaks(line))
}

/// What a request was answered: the daemon's reply, or why there is none.
pub type Reply = Result<Json, IpcError>;

/// A [`Reply`] as it is seen.
pub open spec fn reply_view(reply: Reply) -> Result<JsonView, IpcErrorView> {
    match reply {
        Ok(value) => Ok(value@),
        Err(e) => Err(e@),
    }
}

/// Whether the daemon says that it did what was asked.
pub open spec fn is_ok(reply: JsonView) -> bool {
    reply.field("ok"@).as_bool() == Some(true)
}

/// The reason that a refusal names.
pub open spec fn reason(reply: JsonView) -> Seq<char> {
    match reply.field("error"@).as_str() {
        Some(s) => s,
        None => "unknown"@,
    }
}

/// The error that a refusal is.
pub open spec fn refusal(reply: JsonView) -> IpcErrorView {
    if reason(reply) == "busy"@ {
        IpcErrorView::Busy
    } else {
        IpcErrorView::ServerError(reason(reply))
    }
}

/// The complaint about a reply that lacks something.
pub open spec fn malformed(reply: JsonView) -> IpcErrorView {
    IpcErrorView::Malformed(json_text(reply))
}

/// A reply that carries nothing but its success.
pub open spec fn bare_result(reply: JsonView) -> Result<(), IpcErrorView> {
    if !is_ok(reply) {
        Err(refusal(reply))
    } else {
        Ok(())
    }
}

/// A reply that carries a cache path.
pub open spec fn cache_path_result(reply: JsonView) -> Result<Seq<char>, IpcErrorView> {
    if !is_ok(reply) {
        Err(refusal(reply))
    } else {
        match reply.field("cache_path"@).as_str() {
            Some(path) => Ok(path),
            None => Err(malformed(reply)),
        }
    }
}

/// The cache path that an answer carries.
pub open spec fn answered_path(reply: Result<JsonView, IpcErrorView>) -> Result<
    Seq<char>,
    IpcErrorView,
> {
    match reply {
        Err(e) => Err(e),
        Ok(value) => cache_path_result(value),
    }
}

/// Whether an answer is a success, for a verb that hands nothing back.
pub open spec fn answered_bare(reply: Result<JsonView, IpcErrorView>) -> Result<(), IpcErrorView> {
    match reply {
        Err(e) => Err(e),
        Ok(value) => bare_result(value),
    }
}

/// The cache path and the handle id that an answer carries.
pub open spec fn answered_create(reply: Result<JsonView, IpcErrorView>) -> Result<
    (Seq<char>, Seq<char>),
    IpcErrorView,
> {
    match reply {
        Err(e) => Err(e),
        Ok(value) => create_result(value),
    }
}

/// A reply that carries a cache path and a handle id.
pub open spec fn create_result(reply: JsonView) -> Result<(Seq<char>, Seq<char>), IpcErrorView> {
    match cache_path_result(reply) {
        Err(e) => Err(e),
        Ok(path) => match reply.field("handle_id"@).as_str() {
            Some(id) => Ok((path, id)),
            None => Err(malformed(reply)),
        },
    }
}

/// A reply that carries a time of last sync.
pub open spec fn last_synced_result(reply: JsonView) -> Result<i64, IpcErrorView> {
    if !is_ok(reply) {
        Err(IpcErrorView::Unknown { reason: reason(reply) })
    } else {
        match reply.field("mtime_ms"@).as_i64() {
            Some(ms) => Ok(ms),
            None => Err(malformed(reply)),
        }
    }
}

/// The size that a listed entry has: what it says where that is a natural
/// number, 0 for anything else.
pub open spec fn entry_size(size: JsonView) -> u64 {
    match size.as_u64() {
        Some(n) => n,
        None => 0,
    }
}

/// One entry of a listing.
pub open spec fn entry_result(e: JsonView) -> Result<ListEntryView, IpcErrorView> {
    match (
        e.field("path"@).as_str(),
        e.field("mtime_ms"@).as_i64(),
        e.field("hydrated"@).as_bool(),
        e.field("folder"@).as_bool(),
    ) {
        (Some(path), Some(mtime_ms), Some(hydrated), Some(folder)) => Ok(
            ListEntryView {
                path,
                size: entry_size(e.field("size"@)),
                mtime_ms,
                hydrated,
                folder,
            },
        ),
        _ => Err(malformed(e)),
    }
}

/// The entries of a listing in order, or the complaint about the first bad one.
pub open spec fn entries_result(items: Seq<JsonView>) -> Result<Seq<ListEntryView>, IpcErrorView>
    decreases items.len(),
{
    if items.len() == 0 {
        Ok(Seq::empty())
    } else {
        match entries_result(items.drop_last()) {
            Err(e) => Err(e),
            Ok(entries) => match entry_result(items.last()) {
                Err(e) => Err(e),
                Ok(entry) => Ok(entries.push(entry)),
            },
        }
    }
}

/// A reply that carries a listing.
pub open spec fn list_result(reply: JsonView) -> Result<Seq<ListEntryView>, IpcErrorView> {
    if !is_ok(reply) {
        Err(refusal(reply))
    } else {
        match reply.field("entries"@).as_array() {
            None => Err(malformed(reply)),
            Some(items) => entries_result(items),
        }
    }
}

/// The views of listed entries, in order.
pub open spec fn entry_views(entries: Seq<ListEntry>) -> Seq<ListEntryView> {
    entries.map_values(|e: ListEntry| e@)
}

fn reply_ok(reply: &Json) -> (r: bool)
    ensures
        r == is_ok(reply@),
{
    match reply.bool_field("ok") {
        Some(b) => b,
        None => false,
    }
}

fn reply_reason(reply: &Json) -> (r: String)
    ensures
        r@ == reason(reply@),
{
    match reply.str_field("error") {
        Some(s) => s.clone(),
        None => "unknown".to_owned(),
    }
}

/// The error that a refusing reply is: [`IpcError::Busy`] for the reason
/// `busy`, else its reason, `unknown` where it names none.
pub fn server_error(reply: &Json) -> (r: IpcError)
    ensures
        r@ == refusal(reply@),
{
    let why = reply_reason(reply);
    if same(why.as_str(), "busy") {
        return IpcError::Busy;
    }
    IpcError::ServerError(why)
}

fn malformed_reply(reply: &Json) -> (r: IpcError)
    ensures
        r@ == malformed(reply@),
{
    IpcError::Malformed(render(reply))
}

/// The reply to a verb that hands nothing back.
pub fn bare_reply(reply: &Json) -> (r: Result<(), IpcError>)
    ensures
        match r {
            Ok(()) => bare_result(reply@) == Ok::<(), IpcErrorView>(()),
            Err(e) => bare_result(reply@) == Err::<(), IpcErrorView>(e@),
        },
{
    if !reply_ok(reply) {
        return Err(server_error(reply));
    }
    Ok(())
}

/// The reply to a verb that hands a cache path back.
pub fn cache_path_reply(reply: &Json) -> (r: Result<String, IpcError>)
    ensures
        match r {
            Ok(path) => cache_path_result(reply@) == Ok::<Seq<char>, IpcErrorView>(path@),
            Err(e) => cache_path_result(reply@) == Err::<Seq<char>, IpcErrorView>(e@),
        },
{
    if !reply_ok(reply) {
        return Err(server_error(reply));
    }
    match reply.str_field("cache_path") {
        Some(path) => Ok(path.clone()),
        None => Err(malformed_reply(reply)),
    }
}

/// The reply to `open_read`.
pub fn open_read_reply(reply: &Json) -> (r: Result<OpenReadReply, IpcError>)
    ensures
        match r {
            Ok(opened) => cache_path_result(reply@) == Ok::<Seq<char>, IpcErrorView>(
                opened.cache_path@,
            ),
            Err(e) => cache_path_result(reply@) == Err::<Seq<char>, IpcErrorView>(e@),
        },
{
    match cache_path_reply(reply) {
        Ok(cache_path) => Ok(OpenReadReply { cache_path }),
        Err(e) => Err(e),
    }
}

/// The reply to `open_write`.
pub fn open_write_reply(reply: &Json) -> (r: Result<OpenWriteReply, IpcError>)
    ensures
        match r {
            Ok(opened) => cache_path_result(reply@) == Ok::<Seq<char>, IpcErrorView>(
                opened.cache_path@,
            ),
            Err(e) => cache_path_result(reply@) == Err::<Seq<char>, IpcErrorView>(e@),
        },
{
    match cache_path_reply(reply) {
        Ok(cache_path) => Ok(OpenWriteReply { cache_path }),
        Err(e) => Err(e),
    }
}

/// The reply to `open_write_begin`.
pub fn open_write_begin_reply(reply: &Json) -> (r: Result<OpenWriteBeginReply, IpcError>)
    ensures
        match r {
            Ok(opened) => cache_path_result(reply@) == Ok::<Seq<char>, IpcErrorView>(
                opened.cache_path@,
            ),
            Err(e) => cache_path_result(reply@) == Err::<Seq<char>, IpcErrorView>(e@),
        },
{
    match cache_path_reply(reply) {
        Ok(cache_path) => Ok(OpenWriteBeginReply { cache_path }),
        Err(e) => Err(e),
    }
}

/// The reply to `create`.
pub fn create_reply(reply: &Json) -> (r: Result<CreateReply, IpcError>)
    ensures
        match r {
            Ok(made) => create_result(reply@) == Ok::<(Seq<char>, Seq<char>), IpcErrorView>(
                (made.cache_path@, made.handle_id@),
            ),
            Err(e) => create_result(reply@) == Err::<(Seq<char>, Seq<char>), IpcErrorView>(e@),
        },
{
    match cache_path_reply(reply) {
        Err(e) => Err(e),
        Ok(cache_path) => match reply.str_field("handle_id") {
            Some(id) => Ok(CreateReply { cache_path, handle_id: id.clone() }),
            None => Err(malformed_reply(reply)),
        },
    }
}

/// The reply to `last_synced`: the time of last sync in milliseconds.
pub fn last_synced_reply(reply: &Json) -> (r: Result<i64, IpcError>)
    ensures
        match r {
            Ok(ms) => last_synced_result(reply@) == Ok::<i64, IpcErrorView>(ms),
            Err(e) => last_synced_result(reply@) == Err::<i64, IpcErrorView>(e@),
        },
{
    if !reply_ok(reply) {
        return Err(IpcError::Unknown { reason: reply_reason(reply) });
    }
    match reply.i64_field("mtime_ms") {
        Some(ms) => Ok(ms),
        None => Err(malformed_reply(reply)),
    }
}

/// One entry of the reply to `list`. A size that is no natural number counts
/// as 0, so that one bad size does not spoil a whole listing.
pub fn parse_list_entry(e: &Json) -> (r: Result<ListEntry, IpcError>)
    ensures
        match r {
            Ok(entry) => entry_result(e@) == Ok::<ListEntryView, IpcErrorView>(entry@),
            Err(err) => entry_result(e@) == Err::<ListEntryView, IpcErrorView>(err@),
        },
{
    let path = match e.str_field("path") {
        Some(path) => path.clone(),
        None => return Err(malformed_reply(e)),
    };
    let size: u64 = match e.u64_field("size") {
        Some(n) => n,
        None => 0,
    };
    let mtime_ms: i64 = match e.i64_field("mtime_ms") {
        Some(ms) => ms,
        None => return Err(malformed_reply(e)),
    };
    let hydrated = match e.bool_field("hydrated") {
        Some(b) => b,
        None => return Err(malformed_reply(e)),
    };
    let folder = match e.bool_field("folder") {
        Some(b) => b,
        None => return Err(malformed_reply(e)),
    };
    Ok(ListEntry { path, size, mtime_ms, hydrated, folder })
}

/// A bad entry of a prefix spoils the whole listing.
proof fn lemma_entries_prefix(items: Seq<JsonView>, n: int)
    requires
        0 <= n <= items.len(),
        entries_result(items.take(n)) is Err,
    ensures
        entries_result(items) == entries_result(items.take(n)),
    decreases items.len() - n,
{
    if n < items.len() {
        assert(items.take(n + 1).drop_last() =~= items.take(n));
        lemma_entries_prefix(items, n + 1);
    } else {
        assert(items.take(n) =~= items);
    }
}

/// The reply to `list`.
pub fn list_reply(reply: &Json) -> (r: Result<Vec<ListEntry>, IpcError>)
    ensures
        match r {
            Ok(entries) => list_result(reply@) == Ok::<Seq<ListEntryView>, IpcErrorView>(
                entry_views(entries@),
            ),
            Err(e) => list_result(reply@) == Err::<Seq<ListEntryView>, IpcErrorView>(e@),
        },
{
    if !reply_ok(reply) {
        return Err(server_error(reply));
    }
    let items = match reply.array_field("entries") {
        Some(items) => items,
        None => return Err(malformed_reply(reply)),
    };
    let ghost all = array_view(items@);
    proof {
        crate::json::lemma_array_view(items@);
    }
    let mut out: Vec<ListEntry> = Vec::new();
    let mut i: usize = 0;
    assert(entry_views(out@) =~= Seq::empty());
    while i < items.len()
        invariant
            i <= items@.len(),
            all == array_view(items@),
            all.len() == items@.len(),
            forall|k: int| 0 <= k < items@.len() ==> #[trigger] all[k] == items@[k]@,
            list_result(reply@) == entries_result(all),
            entries_result(all.take(i as int)) == Ok::<Seq<ListEntryView>, IpcErrorView>(
                entry_views(out@),
            ),
        decreases items@.len() - i,
    {
        let ghost before = out@;
        assert(all.take(i + 1).drop_last() =~= all.take(i as int));
        assert(all.take(i + 1).last() == items@[i as int]@);
        match parse_list_entry(&items[i]) {
            Ok(entry) => {
                out.push(entry);
                assert(entry_views(out@) =~= entry_views(before).push(out@.last()@));
            },
            Err(e) => {
                proof {
                    lemma_entries_prefix(all, i + 1);
                }
                return Err(e);
            },
        }
        i = i + 1;
    }
    assert(all.take(all.len() as int) =~= all);
    Ok(out)
}

proof fn lemma_text_object_get(fields: Seq<(Seq<char>, Seq<char>)>, i: int)
    requires
        0 <= i < fields.len(),
        forall|j: int| i < j < fields.len() ==> (#[trigger] fields[j]).0 != fields[i].0,
    ensures
        text_object(fields).contains_key(fields[i].0),
        text_object(fields)[fields[i].0] == JsonView::Str(fields[i].1),
    decreases fields.len(),
{
    if i < fields.len() - 1 {
        let rest = fields.drop_last();
        assert(rest[i] == fields[i]);
        assert forall|j: int| i < j < rest.len() implies (#[trigger] rest[j]).0 != rest[i].0 by {
            assert(rest[j] == fields[j]);
        }
        lemma_text_object_get(rest, i);
        assert(fields[fields.len() - 1].0 != fields[i].0);
    }
}

proof fn lemma_text_object_lacks(fields: Seq<(Seq<char>, Seq<char>)>, name: Seq<char>)
    requires
        forall|j: int| 0 <= j < fields.len() ==> (#[trigger] fields[j]).0 != name,
    ensures
        !text_object(fields).contains_key(name),
    decreases fields.len(),
{
    if fields.len() > 0 {
        let rest = fields.drop_last();
        assert forall|j: int| 0 <= j < rest.len() implies (#[trigger] rest[j]).0 != name by {
            assert(rest[j] == fields[j]);
        }
        lemma_text_object_lacks(rest, name);
        assert(fields[fields.len() - 1].0 != name);
    }
}

/// The names of fields are different.
proof fn lemma_names()
    ensures
        "verb"@ != "path"@,
        "verb"@ != "handle_id"@,
        "verb"@ != "cache_path"@,
        "verb"@ != "prefix"@,
        "verb"@ != "old_path"@,
        "verb"@ != "new_path"@,
        "path"@ != "handle_id"@,
        "path"@ != "cache_path"@,
        "handle_id"@ != "cache_path"@,
        "old_path"@ != "new_path"@,
{
    reveal_strlit("verb");
    reveal_strlit("path");
    reveal_strlit("handle_id");
    reveal_strlit("cache_path");
    reveal_strlit("prefix");
    reveal_strlit("old_path");
    reveal_strlit("new_path");
    assert("verb"@[0] != "path"@[0]);
    assert("handle_id"@.len() != "cache_path"@.len());
    assert("old_path"@[0] != "new_path"@[0]);
}

/// The verbs of different kinds of request are different.
proof fn lemma_verbs(a: Request<Seq<char>>, b: Request<Seq<char>>)
    requires
        verb(a) == verb(b),
    ensures
        a is OpenRead <==> b is OpenRead,
        a is OpenWrite <==> b is OpenWrite,
        a is OpenWriteBegin <==> b is OpenWriteBegin,
        a is CloseHandle <==> b is CloseHandle,
        a is Hydrate <==> b is Hydrate,
        a is Dehydrate <==> b is Dehydrate,
        a is Subscribe <==> b is Subscribe,
        a is LastSynced <==> b is LastSynced,
        a is List <==> b is List,
        a is Mkdir <==> b is Mkdir,
        a is Unlink <==> b is Unlink,
        a is Rmdir <==> b is Rmdir,
        a is Create <==> b is Create,
        a is Rename <==> b is Rename,
{
    reveal_strlit("hydration.open_read");
    assert("hydration.open_read"@.len() == 19 && "hydration.open_read"@[10] == 'o');
    reveal_strlit("hydration.open_write");
    assert("hydration.open_write"@.len() == 20 && "hydration.open_write"@[10] == 'o');
    reveal_strlit("hydration.open_write_begin");
    assert("hydration.open_write_begin"@.len() == 26 && "hydration.open_write_begin"@[10] == 'o');
    reveal_strlit("hydration.close_handle");
    assert("hydration.close_handle"@.len() == 22 && "hydration.close_handle"@[10] == 'c');
    reveal_strlit("hydration.hydrate");
    assert("hydration.hydrate"@.len() == 17 && "hydration.hydrate"@[10] == 'h');
    reveal_strlit("hydration.dehydrate");
    assert("hydration.dehydrate"@.len() == 19 && "hydration.dehydrate"@[10] == 'd');
    reveal_strlit("hydration.subscribe");
    assert("hydration.subscribe"@.len() == 19 && "hydration.subscribe"@[10] == 's');
    reveal_strlit("hydration.last_synced");
    assert("hydration.last_synced"@.len() == 21 && "hydration.last_synced"@[10] == 'l');
    reveal_strlit("hydration.list");
    assert("hydration.list"@.len() == 14 && "hydration.list"@[10] == 'l');
    reveal_strlit("hydration.mkdir");
    assert("hydration.mkdir"@.len() == 15 && "hydration.mkdir"@[10] == 'm');
    reveal_strlit("hydration.unlink");
    assert("hydration.unlink"@.len() == 16 && "hydration.unlink"@[10] == 'u');
    reveal_strlit("hydration.rmdir");
    assert("hydration.rmdir"@.len() == 15 && "hydration.rmdir"@[10] == 'r');
    reveal_strlit("hydration.create");
    assert("hydration.create"@.len() == 16 && "hydration.create"@[10] == 'c');
    reveal_strlit("hydration.rename");
    assert("hydration.rename"@.len() == 16 && "hydration.rename"@[10] == 'r');
}

proof fn lemma_request_tree_verb(req: Request<Seq<char>>)
    ensures
        request_tree(req).field("verb"@) == JsonView::Str(verb(req)),
{
    lemma_names();
    let fields = seq![("verb"@, verb(req))] + request_fields(req);
    lemma_text_object_get(fields, 0);
}

proof fn lemma_request_tree_field(req: Request<Seq<char>>, i: int)
    requires
        0 <= i < request_fields(req).len(),
    ensures
        request_tree(req).field(request_fields(req)[i].0) == JsonView::Str(
            request_fields(req)[i].1,
        ),
{
    lemma_names();
    let fields = seq![("verb"@, verb(req))] + request_fields(req);
    assert(fields[i + 1] == request_fields(req)[i]);
    lemma_text_object_get(fields, i + 1);
}

/// A line that reads as two requests reads as one and the same: nothing of a
/// request is lost on the way to the daemon.
pub proof fn requests_read_apart(
    line: Seq<char>,
    a: Request<Seq<char>>,
    b: Request<Seq<char>>,
)
    requires
        reads_as(line, request_tree(a)),
        reads_as(line, request_tree(b)),
    ensures
        a == b,
{
    lemma_names();
    lemma_request_tree_verb(a);
    lemma_request_tree_verb(b);
    lemma_verbs(a, b);
    if a is OpenWriteBegin {
        let fa = seq![("verb"@, verb(a))] + request_fields(a);
        let fb = seq![("verb"@, verb(b))] + request_fields(b);
        lemma_request_tree_field(a, 0);
        lemma_request_tree_field(b, 0);
        if request_fields(a).len() == 2 {
            lemma_request_tree_field(a, 1);
        } else {
            lemma_text_object_lacks(fa, "handle_id"@);
        }
        if request_fields(b).len() == 2 {
            lemma_request_tree_field(b, 1);
        } else {
            lemma_text_object_lacks(fb, "handle_id"@);
        }
    } else {
        if request_fields(a).len() >= 1 {
            lemma_request_tree_field(a, 0);
            lemma_request_tree_field(b, 0);
        }
        if request_fields(a).len() >= 2 {
            lemma_request_tree_field(a, 1);
            lemma_request_tree_field(b, 1);
        }
        if request_fields(a).len() >= 3 {
            lemma_request_tree_field(a, 2);
            lemma_request_tree_field(b, 2);
        }
    }
}

/// A bad size never fails an entry: whether an entry is taken does not depend
/// on its size.
pub proof fn size_never_fails_an_entry(e: Map<Seq<char>, JsonView>, size: JsonView)
    ensures
        entry_result(JsonView::Object(e)) is Ok <==> entry_result(
            JsonView::Object(e.insert("size"@, size)),
        ) is Ok,
        entry_result(JsonView::Object(e.insert("size"@, size))) matches Ok(entry) ==> entry.size
            == entry_size(size),
{
    reveal_strlit("size");
    reveal_strlit("path");
    reveal_strlit("mtime_ms");
    reveal_strlit("hydrated");
    reveal_strlit("folder");
    assert("size"@[0] != "path"@[0]);
    assert("size"@.len() != "mtime_ms"@.len());
    assert("size"@.len() != "hydrated"@.len());
    assert("size"@.len() != "folder"@.len());
}

/// The cache path that an answer carries.
pub fn path_answer(reply: Reply) -> (r: Result<String, IpcError>)
    ensures
        match r {
            Ok(path) => answered_path(reply_view(reply)) == Ok::<Seq<char>, IpcErrorView>(path@),
            Err(e) => answered_path(reply_view(reply)) == Err::<Seq<char>, IpcErrorView>(e@),
        },
{
    match reply {
        Err(e) => Err(e),
        Ok(value) => cache_path_reply(&value),
    }
}

/// Whether an answer is a success, for a verb that hands nothing back.
pub fn bare_answer(reply: Reply) -> (r: Result<(), IpcError>)
    ensures
        match r {
            Ok(()) => answered_bare(reply_view(reply)) == Ok::<(), IpcErrorView>(()),
            Err(e) => answered_bare(reply_view(reply)) == Err::<(), IpcErrorView>(e@),
        },
{
    match reply {
        Err(e) => Err(e),
        Ok(value) => bare_reply(&value),
    }
}

/// The cache path and the handle id that an answer carries.
pub fn create_answer(reply: Reply) -> (r: Result<CreateReply, IpcError>)
    ensures
        match r {
            Ok(made) => answered_create(reply_view(reply)) == Ok::<
                (Seq<char>, Seq<char>),
                IpcErrorView,
            >((made.cache_path@, made.handle_id@)),
            Err(e) => answered_create(reply_view(reply)) == Err::<
                (Seq<char>, Seq<char>),
                IpcErrorView,
            >(e@),
        },
{
    match reply {
        Err(e) => Err(e),
        Ok(value) => create_reply(&value),
    }
}

proof fn lemma_text_object_of(fields: Seq<(Seq<char>, Seq<char>)>)
    ensures
        fields.len() == 1 ==> text_object(fields) == map![
            fields[0].0 => JsonView::Str(fields[0].1)
        ],
        fields.len() == 2 ==> text_object(fields) == map![
            fields[0].0 => JsonView::Str(fields[0].1),
            fields[1].0 => JsonView::Str(fields[1].1)
        ],
        fields.len() == 3 ==> text_object(fields) == map![
            fields[0].0 => JsonView::Str(fields[0].1),
            fields[1].0 => JsonView::Str(fields[1].1),
            fields[2].0 => JsonView::Str(fields[2].1)
        ],
        fields.len() == 4 ==> text_object(fields) == map![
            fields[0].0 => JsonView::Str(fields[0].1),
            fields[1].0 => JsonView::Str(fields[1].1),
            fields[2].0 => JsonView::Str(fields[2].1),
            fields[3].0 => JsonView::Str(fields[3].1)
        ],
{
    reveal_with_fuel(text_object, 5);
}

/// A request is written as an object with its verb and its fields, each under
/// its own name, and nothing else.
pub proof fn requests_say_what_they_ask(a: Seq<char>, b: Seq<char>, c: Seq<char>)
    ensures
        request_tree(Request::OpenRead { handle_id: a, path: b }) == JsonView::Object(
            map![
                "verb"@ => JsonView::Str("hydration.open_read"@),
                "handle_id"@ => JsonView::Str(a),
                "path"@ => JsonView::Str(b),
            ],
        ),
        request_tree(Request::OpenWrite { handle_id: a, path: b, cache_path: c }) == JsonView::Object(
            map![
                "verb"@ => JsonView::Str("hydration.open_write"@),
                "handle_id"@ => JsonView::Str(a),
                "path"@ => JsonView::Str(b),
                "cache_path"@ => JsonView::Str(c),
            ],
        ),
        request_tree(Request::CloseHandle { handle_id: a }) == JsonView::Object(
            map![
                "verb"@ => JsonView::Str("hydration.close_handle"@),
                "handle_id"@ => JsonView::Str(a),
            ],
        ),
        request_tree(Request::Hydrate { path: a }) == JsonView::Object(
            map![
                "verb"@ => JsonView::Str("hydration.hydrate"@),
                "path"@ => JsonView::Str(a),
            ],
        ),
        request_tree(Request::Dehydrate { path: a }) == JsonView::Object(
            map![
                "verb"@ => JsonView::Str("hydration.dehydrate"@),
                "path"@ => JsonView::Str(a),
            ],
        ),
        request_tree(Request::LastSynced { path: a }) == JsonView::Object(
            map![
                "verb"@ => JsonView::Str("hydration.last_synced"@),
                "path"@ => JsonView::Str(a),
            ],
        ),
        request_tree(Request::List { prefix: a }) == JsonView::Object(
            map![
                "verb"@ => JsonView::Str("hydration.list"@),
                "prefix"@ => JsonView::Str(a),
            ],
        ),
        request_tree(Request::Mkdir { path: a }) == JsonView::Object(
            map![
                "verb"@ => JsonView::Str("hydration.mkdir"@),
                "path"@ => JsonView::Str(a),
            ],
        ),
        request_tree(Request::Unlink { path: a }) == JsonView::Object(
            map![
                "verb"@ => JsonView::Str("hydration.unlink"@),
                "path"@ => JsonView::Str(a),
            ],
        ),
        request_tree(Request::Rmdir { path: a }) == JsonView::Object(
            map![
                "verb"@ => JsonView::Str("hydration.rmdir"@),
                "path"@ => JsonView::Str(a),
            ],
        ),
        request_tree(Request::Create { handle_id: a, path: b }) == JsonView::Object(
            map![
                "verb"@ => JsonView::Str("hydration.create"@),
                "handle_id"@ => JsonView::Str(a),
                "path"@ => JsonView::Str(b),
            ],
        ),
        request_tree(Request::Rename { old_path: a, new_path: b }) == JsonView::Object(
            map![
                "verb"@ => JsonView::Str("hydration.rename"@),
                "old_path"@ => JsonView::Str(a),
                "new_path"@ => JsonView::Str(b),
            ],
        ),
        request_tree(Request::OpenWriteBegin { path: a, handle_id: None }) == JsonView::Object(
            map![
                "verb"@ => JsonView::Str("hydration.open_write_begin"@),
                "path"@ => JsonView::Str(a),
            ],
        ),
        request_tree(Request::OpenWriteBegin { path: a, handle_id: Some(b) }) == JsonView::Object(
            map![
                "verb"@ => JsonView::Str("hydration.open_write_begin"@),
                "path"@ => JsonView::Str(a),
                "handle_id"@ => JsonView::Str(b),
            ],
        ),
        request_tree(Request::Subscribe) == JsonView::Object(
            map![
                "verb"@ => JsonView::Str("hydration.subscribe"@),
            ],
        ),
{
    lemma_text_object_of(seq![("verb"@, verb(Request::OpenRead { handle_id: a, path: b }))] + request_fields(Request::OpenRead { handle_id: a, path: b }));
    lemma_text_object_of(seq![("verb"@, verb(Request::OpenWrite { handle_id: a, path: b, cache_path: c }))] + request_fields(Request::OpenWrite { handle_id: a, path: b, cache_path: c }));
    lemma_text_object_of(seq![("verb"@, verb(Request::CloseHandle { handle_id: a }))] + request_fields(Request::CloseHandle { handle_id: a }));
    lemma_text_object_of(seq![("verb"@, verb(Request::Hydrate { path: a }))] + request_fields(Request::Hydrate { path: a }));
    lemma_text_object_of(seq![("verb"@, verb(Request::Dehydrate { path: a }))] + request_fields(Request::Dehydrate { path: a }));
    lemma_text_object_of(seq![("verb"@, verb(Request::LastSynced { path: a }))] + request_fields(Request::LastSynced { path: a }));
    lemma_text_object_of(seq![("verb"@, verb(Request::List { prefix: a }))] + request_fields(Request::List { prefix: a }));
    lemma_text_object_of(seq![("verb"@, verb(Request::Mkdir { path: a }))] + request_fields(Request::Mkdir { path: a }));
    lemma_text_object_of(seq![("verb"@, verb(Request::Unlink { path: a }))] + request_fields(Request::Unlink { path: a }));
    lemma_text_object_of(seq![("verb"@, verb(Request::Rmdir { path: a }))] + request_fields(Request::Rmdir { path: a }));
    lemma_text_object_of(seq![("verb"@, verb(Request::Create { handle_id: a, path: b }))] + request_fields(Request::Create { handle_id: a, path: b }));
    lemma_text_object_of(seq![("verb"@, verb(Request::Rename { old_path: a, new_path: b }))] + request_fields(Request::Rename { old_path: a, new_path: b }));
    lemma_text_object_of(seq![("verb"@, verb(Request::OpenWriteBegin { path: a, handle_id: None }))] + request_fields(Request::OpenWriteBegin { path: a, handle_id: None }));
    lemma_text_object_of(seq![("verb"@, verb(Request::OpenWriteBegin { path: a, handle_id: Some(b) }))] + request_fields(Request::OpenWriteBegin { path: a, handle_id: Some(b) }));
    lemma_text_object_of(seq![("verb"@, verb(Request::Subscribe))] + request_fields(Request::Subscribe));
}

/// A reply is a success exactly if its `ok` is true. What a success carries is
/// what stands in it under the name of the field, of the right kind; a success
/// that lacks it is malformed, and is shown whole. A reply that is no success
/// is a refusal for the reason that stands under `error`, else for `unknown`;
/// the reason `busy` is told apart, but not where a time of last sync was asked.
pub proof fn replies_are_read_by_their_fields(m: Map<Seq<char>, JsonView>)
    ensures
        ({
            let reply = JsonView::Object(m);
            let ok = m.contains_key("ok"@) && m["ok"@] == JsonView::Bool(true);
            let why = if m.contains_key("error"@) && m["error"@] is Str {
                m["error"@]->Str_0
            } else {
                "unknown"@
            };
            let refused = if why == "busy"@ {
                IpcErrorView::Busy
            } else {
                IpcErrorView::ServerError(why)
            };
            let lacking = IpcErrorView::Malformed(json_text(reply));
            let path = m.contains_key("cache_path"@) && m["cache_path"@] is Str;
            let id = m.contains_key("handle_id"@) && m["handle_id"@] is Str;
            let time = m.contains_key("mtime_ms"@) && m["mtime_ms"@] is Integer && i64::MIN
                <= m["mtime_ms"@]->Integer_0 <= i64::MAX;
            &&& bare_result(reply) == if ok {
                Ok::<(), IpcErrorView>(())
            } else {
                Err::<(), IpcErrorView>(refused)
            }
            &&& cache_path_result(reply) == if !ok {
                Err::<Seq<char>, IpcErrorView>(refused)
            } else if path {
                Ok::<Seq<char>, IpcErrorView>(m["cache_path"@]->Str_0)
            } else {
                Err::<Seq<char>, IpcErrorView>(lacking)
            }
            &&& create_result(reply) == if !ok {
                Err::<(Seq<char>, Seq<char>), IpcErrorView>(refused)
            } else if path && id {
                Ok::<(Seq<char>, Seq<char>), IpcErrorView>(
                    (m["cache_path"@]->Str_0, m["handle_id"@]->Str_0),
                )
            } else {
                Err::<(Seq<char>, Seq<char>), IpcErrorView>(lacking)
            }
            &&& last_synced_result(reply) == if !ok {
                Err::<i64, IpcErrorView>(IpcErrorView::Unknown { reason: why })
            } else if time {
                Ok::<i64, IpcErrorView>(m["mtime_ms"@]->Integer_0 as i64)
            } else {
                Err::<i64, IpcErrorView>(lacking)
            }
            &&& !ok ==> list_result(reply) == Err::<Seq<ListEntryView>, IpcErrorView>(refused)
            &&& ok && !(m.contains_key("entries"@) && m["entries"@] is Array) ==> list_result(reply)
                == Err::<Seq<ListEntryView>, IpcErrorView>(lacking)
        }),
{
}

/// What is no object is no success, and names no reason.
pub proof fn other_values_are_refusals(reply: JsonView)
    requires
        !(reply is Object),
    ensures
        ({
            let refused = IpcErrorView::ServerError("unknown"@);
            &&& bare_result(reply) == Err::<(), IpcErrorView>(refused)
            &&& cache_path_result(reply) == Err::<Seq<char>, IpcErrorView>(refused)
            &&& create_result(reply) == Err::<(Seq<char>, Seq<char>), IpcErrorView>(refused)
            &&& last_synced_result(reply) == Err::<i64, IpcErrorView>(
                IpcErrorView::Unknown { reason: "unknown"@ },
            )
            &&& list_result(reply) == Err::<Seq<ListEntryView>, IpcErrorView>(refused)
        }),
{
    reveal_strlit("unknown");
    reveal_strlit("busy");
    assert("unknown"@.len() != "busy"@.len());
}

/// A connection that fails is passed on, whatever the verb.
pub proof fn failures_are_passed_on(e: IpcErrorView)
    ensures
        answered_bare(Err(e)) == Err::<(), IpcErrorView>(e),
        answered_path(Err(e)) == Err::<Seq<char>, IpcErrorView>(e),
        answered_create(Err(e)) == Err::<(Seq<char>, Seq<char>), IpcErrorView>(e),
{
}

/// What came over a connection is read by what the verb promises.
pub proof fn answers_are_read_as_replies(value: JsonView)
    ensures
        answered_bare(Ok(value)) == bare_result(value),
        answered_path(Ok(value)) == cache_path_result(value),
        answered_create(Ok(value)) == create_result(value),
{
}

/// An entry of a listing is taken exactly if its path is a text, its time fits
/// and its two marks are truth values; each goes to its own place. Its size is
/// the number that it says, 0 where that is no natural number that fits.
pub proof fn listed_entries_are_read_by_their_fields(m: Map<Seq<char>, JsonView>)
    ensures
        ({
            let e = JsonView::Object(m);
            let good = m.contains_key("path"@) && m["path"@] is Str && m.contains_key("mtime_ms"@)
                && m["mtime_ms"@] is Integer && i64::MIN <= m["mtime_ms"@]->Integer_0 <= i64::MAX
                && m.contains_key("hydrated"@) && m["hydrated"@] is Bool && m.contains_key(
                "folder"@,
            ) && m["folder"@] is Bool;
            &&& !good ==> entry_result(e) == Err::<ListEntryView, IpcErrorView>(
                IpcErrorView::Malformed(json_text(e)),
            )
            &&& good ==> entry_result(e) is Ok
            &&& entry_result(e) matches Ok(entry) ==> {
                &&& JsonView::Str(entry.path) == m["path"@]
                &&& JsonView::Integer(entry.mtime_ms as int) == m["mtime_ms"@]
                &&& JsonView::Bool(entry.hydrated) == m["hydrated"@]
                &&& JsonView::Bool(entry.folder) == m["folder"@]
                &&& if m.contains_key("size"@) && m["size"@] is Integer && 0
                    <= m["size"@]->Integer_0 <= u64::MAX {
                    entry.size == m["size"@]->Integer_0
                } else {
                    entry.size == 0
                }
            }
        }),
{
}

/// A listing has one entry for each that was sent, in the order in which they
/// were sent; the first bad one spoils it.
pub proof fn listings_keep_their_order(m: Map<Seq<char>, JsonView>, items: Seq<JsonView>)
    requires
        m.contains_key("ok"@),
        m["ok"@] == JsonView::Bool(true),
        m.contains_key("entries"@),
        m["entries"@] == JsonView::Array(items),
    ensures
        match list_result(JsonView::Object(m)) {
            Ok(entries) => entries.len() == items.len() && forall|i: int|
                0 <= i < items.len() ==> entry_result(#[trigger] items[i]) == Ok::<
                    ListEntryView,
                    IpcErrorView,
                >(entries[i]),
            Err(e) => exists|i: int|
                0 <= i < items.len() && entry_result(#[trigger] items[i]) == Err::<
                    ListEntryView,
                    IpcErrorView,
                >(e) && forall|j: int| 0 <= j < i ==> entry_result(#[trigger] items[j]) is Ok,
        },
{
    lemma_entries_in_order(items);
}

proof fn lemma_entries_in_order(items: Seq<JsonView>)
    ensures
        match entries_result(items) {
            Ok(entries) => entries.len() == items.len() && forall|i: int|
                0 <= i < items.len() ==> entry_result(#[trigger] items[i]) == Ok::<
                    ListEntryView,
                    IpcErrorView,
                >(entries[i]),
            Err(e) => exists|i: int|
                0 <= i < items.len() && entry_result(#[trigger] items[i]) == Err::<
                    ListEntryView,
                    IpcErrorView,
                >(e) && forall|j: int| 0 <= j < i ==> entry_result(#[trigger] items[j]) is Ok,
        },
    decreases items.len(),
{
    if items.len() > 0 {
        let rest = items.drop_last();
        lemma_entries_in_order(rest);
        match entries_result(rest) {
            Ok(before) => {
                assert forall|i: int| 0 <= i < rest.len() implies entry_result(
                    #[trigger] items[i],
                ) == Ok::<ListEntryView, IpcErrorView>(before[i]) by {
                    assert(rest[i] == items[i]);
                }
                assert(items[items.len() - 1] == items.last());
            },
            Err(e) => {
                let i = choose|i: int|
                    0 <= i < rest.len() && entry_result(#[trigger] rest[i]) == Err::<
                        ListEntryView,
                        IpcErrorView,
                    >(e) && forall|j: int| 0 <= j < i ==> entry_result(#[trigger] rest[j]) is Ok;
                assert(items[i] == rest[i]);
                assert forall|j: int| 0 <= j < i implies entry_result(#[trigger] items[j]) is Ok by {
                    assert(items[j] == rest[j]);
                }
            },
        }
    }
}

/// A received line is read without the line breaks at its end. A connection
/// that ended is an error of the connection, and what cannot be read is
/// malformed, with the complaint and the line.
pub proof fn lines_are_read_without_their_breaks(text: Seq<char>, breaks: nat)
    requires
        text.len() > 0,
        text.last() != '\n',
    ensures
        ({
            let line = text + Seq::new(breaks, |i: int| '\n');
            received(line) == match parsed(text) {
                Ok(value) => Ok::<JsonView, IpcErrorView>(value),
                Err(complaint) => Err::<JsonView, IpcErrorView>(
                    IpcErrorView::Malformed(complaint + seq![':', ' '] + text),
                ),
            }
        }),
        received(Seq::empty()) matches Err(IpcErrorView::Io(_)),
{
    let line = text + Seq::new(breaks, |i: int| '\n');
    let r = without_line_breaks(line);
    only_final_line_breaks_are_dropped(line);
    if r.len() < text.len() {
        assert(line[text.len() - 1] == text.last());
    }
    if r.len() > text.len() {
        assert(r.last() == line[r.len() - 1]);
    }
    assert(r =~= text);
    reveal_strlit(": ");
    assert(": "@ =~= seq![':', ' ']);
}

/// The message of an error says what happened and then why.
pub proof fn messages_say_what_happened(why: Seq<char>)
    ensures
        IpcErrorView::Io(why).message() == seq!['i', 'o', ':', ' '] + why,
        IpcErrorView::Malformed(why).message() == "malformed reply: "@ + why,
        IpcErrorView::ServerError(why).message() == "server reported error: "@ + why,
        IpcErrorView::Busy.message() == seq!['b', 'u', 's', 'y'],
        (IpcErrorView::Unknown { reason: why }).message() == "unknown: "@ + why,
{
    reveal_strlit("io: ");
    assert("io: "@ =~= seq!['i', 'o', ':', ' ']);
    reveal_strlit("busy");
    assert("busy"@ =~= seq!['b', 'u', 's', 'y']);
}

/// A request line may have 64 KiB with its line break, and a reply line 4 MiB.
pub proof fn lines_have_limits()
    ensures
        MAX_REQUEST_BYTES == 64 * 1024,
        MAX_REPLY_BYTES == 4 * 1024 * 1024,
{
}

/// A request whose line with its line break has at most 64 KiB is written as its
/// JSON text; a longer one is refused.
pub proof fn long_requests_are_refused(req: Request<String>, r: Result<String, IpcError>)
    requires
        call_ensures(request_line, (&req,), r),
    ensures
        ({
            let text = json_text(request_tree(req@));
            &&& r is Ok <==> encode_utf8(text).len() + 1 <= 65536
            &&& r matches Ok(line) ==> line@ == text
            &&& r matches Err(e) ==> e@ is Malformed
        }),
{
}

/// An event is the line that was received, without the line breaks at its end; a
/// connection that ended gives none.
pub proof fn events_are_lines(line: &str, r: Result<String, IpcError>, reply: Result<Json, IpcError>)
    requires
        call_ensures(receive_event, (line,), r),
        call_ensures(receive, (line,), reply),
    ensures
        r is Ok <==> line@.len() > 0,
        r matches Ok(event) ==> event@.len() <= line@.len() && event@ == line@.take(
            event@.len() as int,
        ) && (event@.len() > 0 ==> event@.last() != '\n') && forall|i: int|
            event@.len() <= i < line@.len() ==> line@[i] == '\n',
        r matches Err(e) ==> e@ is Io,
        reply matches Ok(value) ==> r matches Ok(event) && parsed(event@) == Ok::<
            JsonView,
            Seq<char>,
        >(value@),
{
    only_final_line_breaks_are_dropped(line@);
}

}
