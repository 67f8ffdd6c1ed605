//! The conditional file server: where an asset and its compressed sibling
//! lie on disk, and what is answered once the disk has been asked.
//!
//! The server does no I/O itself. `FileX::file` starts a `FileLookup`, which
//! says what to ask of the disk next (`FileLookup::action`) and takes the
//! answer (`FileLookup::advance`) until it holds the response.
use vstd::prelude::*;
use crate::asset_path::{
    content_type_of, gz_name, gz_suffix, gz_suffix_for, parse_path, AssetPath, ContentType,
    PathError,
};
use crate::response::{
    has_header, lemma_lines_push, lines, Header, HeadView, HeaderName, ResponseHead,
};
use crate::text::{append_text, chars_of, string_of};
use crate::timestamp::{http_date_text, HttpTimestamp};

verus! {

/// The path of the entry `name` in the directory `dir`: the two joined by a
/// separator, unless `dir` is empty or ends in one already.
pub open spec fn child(dir: Seq<char>, name: Seq<char>) -> Seq<char> {
    if dir.len() == 0 {
        name
    } else if dir.last() == '/' {
        dir + name
    } else {
        dir.push('/') + name
    }
}

/// The path reached from `dir` by going down the segments in turn.
pub open spec fn descend(dir: Seq<char>, segments: Seq<Seq<char>>) -> Seq<char>
    decreases segments.len(),
{
    if segments.len() == 0 {
        dir
    } else {
        child(descend(dir, segments.drop_last()), segments.last())
    }
}

/// Where the asset itself lies.
pub open spec fn plain_location(base: Seq<char>, segments: Seq<Seq<char>>) -> Seq<char> {
    descend(base, segments)
}

/// Where the compressed sibling of the asset lies.
pub open spec fn gzip_location(base: Seq<char>, segments: Seq<Seq<char>>) -> Seq<char> {
    plain_location(base, segments) + gz_suffix(segments.last())
}

/// Going down never leaves the directory: the path of what is reached starts
/// with the path of the directory.
pub proof fn lemma_descend_below(dir: Seq<char>, segments: Seq<Seq<char>>)
    ensures
        dir.is_prefix_of(descend(dir, segments)),
    decreases segments.len(),
{
    if segments.len() > 0 {
        lemma_descend_below(dir, segments.drop_last());
        let parent = descend(dir, segments.drop_last());
        let here = child(parent, segments.last());
        assert(parent.is_prefix_of(here)) by {
            if parent.len() > 0 {
                assert(here.subrange(0, parent.len() as int) =~= parent);
            }
        }
        assert(dir.is_prefix_of(here)) by {
            assert(here.subrange(0, dir.len() as int) =~= parent.subrange(0, dir.len() as int));
        }
    }
}

/// The compressed sibling lies in the directory of the asset, under the
/// asset's name with the sibling's suffix.
pub proof fn law_sibling_lies_beside_asset(base: Seq<char>, segments: Seq<Seq<char>>)
    requires
        segments.len() > 0,
    ensures
        gzip_location(base, segments) == descend(
            base,
            segments.drop_last().push(gz_name(segments.last())),
        ),
{
    let renamed = segments.drop_last().push(gz_name(segments.last()));
    assert(renamed.drop_last() =~= segments.drop_last());
    let parent = descend(base, segments.drop_last());
    assert(child(parent, gz_name(segments.last())) =~= child(parent, segments.last()) + gz_suffix(
        segments.last(),
    ));
}

/// An asset that was found on disk.
#[derive(Clone, Debug, PartialEq, Eq)]
pub struct ResolvedAsset {
    /// The path of the file whose bytes are sent.
    pub location: String,
    /// Whether that file is the compressed sibling.
    pub gzipped: bool,
    /// When the file was last modified, where the disk could tell.
    pub last_modified: Option<HttpTimestamp>,
    /// The content type, which goes by the asset's own name.
    pub content_type: ContentType,
}

/// A found asset as a plain value.
pub struct AssetView {
    pub location: Seq<char>,
    pub gzipped: bool,
    pub last_modified: Option<int>,
    pub content_type: ContentType,
}

/// The instant of a timestamp that may be missing.
pub open spec fn instant_of(at: Option<HttpTimestamp>) -> Option<int> {
    match at {
        Some(t) => Some(t.instant()),
        None => None,
    }
}

impl View for ResolvedAsset {
    type V = AssetView;

    open spec fn view(&self) -> AssetView {
        AssetView {
            location: self.location@,
            gzipped: self.gzipped,
            last_modified: instant_of(self.last_modified),
            content_type: self.content_type,
        }
    }
}

/// What the file server answers.
#[derive(Clone, Debug, PartialEq, Eq)]
pub enum AssetResponse {
    /// Status 200: the headers of the asset, and its bytes from `location`.
    Full(ResolvedAsset),
    /// Status 304, no body: the client's copy is still good.
    NotModified,
    /// Status 404, no body.
    NotFound,
}

/// A response as a plain value.
pub enum ResponseView {
    Full(AssetView),
    NotModified,
    NotFound,
}

impl View for AssetResponse {
    type V = ResponseView;

    open spec fn view(&self) -> ResponseView {
        match *self {
            AssetResponse::Full(asset) => ResponseView::Full(asset@),
            AssetResponse::NotModified => ResponseView::NotModified,
            AssetResponse::NotFound => ResponseView::NotFound,
        }
    }
}

/// Whether the client's copy is still good: the client named a time, the
/// disk told the file's, and the client's is not the earlier of the two.
pub open spec fn is_current(if_modified_since: Option<int>, last_modified: Option<int>) -> bool {
    &&& if_modified_since matches Some(client)
    &&& last_modified matches Some(server)
    &&& client >= server
}

/// The response for a found asset.
pub open spec fn decide(asset: AssetView, if_modified_since: Option<int>) -> ResponseView {
    if is_current(if_modified_since, asset.last_modified) {
        ResponseView::NotModified
    } else {
        ResponseView::Full(asset)
    }
}

/// The text of a content type in a header.
pub open spec fn media_type_text(kind: ContentType) -> Seq<char> {
    match kind {
        ContentType::Html => "text/html"@,
        ContentType::Css => "text/css"@,
        ContentType::OctetStream => "application/octet-stream"@,
    }
}

/// The `Content-Encoding` line of an asset: present for a compressed file.
pub open spec fn encoding_lines(asset: AssetView) -> Seq<(HeaderName, Seq<char>)> {
    if asset.gzipped {
        seq![(HeaderName::ContentEncoding, "gzip"@)]
    } else {
        Seq::<(HeaderName, Seq<char>)>::empty()
    }
}

/// The `Last-Modified` line of an asset: present where the time is known and
/// has a header text.
pub open spec fn modified_lines(asset: AssetView) -> Seq<(HeaderName, Seq<char>)> {
    match asset.last_modified {
        Some(at) => match http_date_text(at) {
            Some(text) => seq![(HeaderName::LastModified, text)],
            None => Seq::<(HeaderName, Seq<char>)>::empty(),
        },
        None => Seq::<(HeaderName, Seq<char>)>::empty(),
    }
}

/// The header lines of a full response.
pub open spec fn full_headers(asset: AssetView) -> Seq<(HeaderName, Seq<char>)> {
    seq![(HeaderName::ContentType, media_type_text(asset.content_type))] + encoding_lines(asset)
        + modified_lines(asset)
}

/// The file whose bytes make the body of a response; a response without body
/// has none.
pub open spec fn body_of(response: ResponseView) -> Option<Seq<char>> {
    match response {
        ResponseView::Full(asset) => Some(asset.location),
        _ => None,
    }
}

/// The head of a response: status and header lines.
pub open spec fn head_of(response: ResponseView) -> HeadView {
    match response {
        ResponseView::Full(asset) => HeadView { status: 200, headers: full_headers(asset) },
        ResponseView::NotModified => HeadView {
            status: 304,
            headers: Seq::<(HeaderName, Seq<char>)>::empty(),
        },
        ResponseView::NotFound => HeadView {
            status: 404,
            headers: Seq::<(HeaderName, Seq<char>)>::empty(),
        },
    }
}

impl ResolvedAsset {
    /// A second value with the same contents.
    pub fn duplicate(&self) -> (copy: ResolvedAsset)
        ensures
            copy@ == self@,
    {
        ResolvedAsset {
            location: self.location.clone(),
            gzipped: self.gzipped,
            last_modified: self.last_modified,
            content_type: self.content_type,
        }
    }
}

impl AssetResponse {
    /// A second value with the same contents.
    pub fn duplicate(&self) -> (copy: AssetResponse)
        ensures
            copy@ == self@,
    {
        match self {
            AssetResponse::Full(asset) => AssetResponse::Full(asset.duplicate()),
            AssetResponse::NotModified => AssetResponse::NotModified,
            AssetResponse::NotFound => AssetResponse::NotFound,
        }
    }

    /// The response for an asset that was found: not modified where the
    /// client's copy is still good, and the asset in full otherwise.
    pub fn for_asset(asset: ResolvedAsset, if_modified_since: Option<HttpTimestamp>) -> (r:
        AssetResponse)
        ensures
            r@ == decide(asset@, instant_of(if_modified_since)),
    {
        let current = match (&if_modified_since, &asset.last_modified) {
            (Some(client), Some(server)) => client.at_least(server),
            _ => false,
        };
        if current {
            AssetResponse::NotModified
        } else {
            AssetResponse::Full(asset)
        }
    }

    /// The status code.
    pub fn status(&self) -> (code: u16)
        ensures
            code == head_of(self@).status,
    {
        match self {
            AssetResponse::Full(_) => 200,
            AssetResponse::NotModified => 304,
            AssetResponse::NotFound => 404,
        }
    }

    /// The path of the file whose bytes make the body; a response without
    /// body has none.
    pub fn body_source(&self) -> (location: Option<String>)
        ensures
            match location {
                Some(path) => body_of(self@) == Some(path@),
                None => body_of(self@) is None,
            },
    {
        match self {
            AssetResponse::Full(asset) => Some(asset.location.clone()),
            _ => None,
        }
    }

    /// The status and the header lines.
    pub fn head(&self) -> (head: ResponseHead)
        ensures
            head@ == head_of(self@),
    {
        match self {
            AssetResponse::Full(asset) => {
                let mut headers: Vec<Header> = Vec::new();
                let kind = Header {
                    name: HeaderName::ContentType,
                    value: asset.content_type.media_type().to_owned(),
                };
                proof {
                    assert(lines(headers@) =~= Seq::<(HeaderName, Seq<char>)>::empty());
                    lemma_lines_push(headers@, kind);
                }
                headers.push(kind);
                if asset.gzipped {
                    let encoding = Header {
                        name: HeaderName::ContentEncoding,
                        value: "gzip".to_owned(),
                    };
                    proof {
                        lemma_lines_push(headers@, encoding);
                    }
                    headers.push(encoding);
                }
                if let Some(at) = &asset.last_modified {
                    if let Some(text) = at.header_text() {
                        let modified = Header { name: HeaderName::LastModified, value: text };
                        proof {
                            lemma_lines_push(headers@, modified);
                        }
                        headers.push(modified);
                    }
                }
                let head = ResponseHead { status: 200, headers };
                proof {
                    assert(head@.headers =~= full_headers(asset@));
                }
                head
            },
            AssetResponse::NotModified => ResponseHead::bare(304),
            AssetResponse::NotFound => ResponseHead::bare(404),
        }
    }
}

/// What a lookup waits for, or holds.
#[derive(Clone, Debug, PartialEq, Eq)]
pub enum Stage {
    /// The compressed sibling is to be opened.
    OpenGzip,
    /// The asset itself is to be opened.
    OpenPlain,
    /// A file is open and its modification time is to be read.
    Metadata { gzipped: bool },
    /// The response stands.
    Done(AssetResponse),
}

/// A stage as a plain value.
pub enum StageView {
    OpenGzip,
    OpenPlain,
    Metadata { gzipped: bool },
    Done(ResponseView),
}

impl View for Stage {
    type V = StageView;

    open spec fn view(&self) -> StageView {
        match *self {
            Stage::OpenGzip => StageView::OpenGzip,
            Stage::OpenPlain => StageView::OpenPlain,
            Stage::Metadata { gzipped } => StageView::Metadata { gzipped },
            Stage::Done(response) => StageView::Done(response@),
        }
    }
}

/// What the disk answered.
#[derive(Clone, Copy, Debug, PartialEq, Eq)]
pub enum FileEvent {
    /// The file was opened.
    Opened,
    /// The file could not be opened, or its metadata could not be read:
    /// whatever the reason.
    Failed,
    /// The metadata of the open file was read; the modification time is
    /// there where the platform tells it.
    Metadata(Option<HttpTimestamp>),
}

/// An event as a plain value.
pub enum EventView {
    Opened,
    Failed,
    Metadata(Option<int>),
}

impl View for FileEvent {
    type V = EventView;

    open spec fn view(&self) -> EventView {
        match *self {
            FileEvent::Opened => EventView::Opened,
            FileEvent::Failed => EventView::Failed,
            FileEvent::Metadata(at) => EventView::Metadata(instant_of(at)),
        }
    }
}

/// What is to be done next for a lookup.
#[derive(Clone, Debug, PartialEq, Eq)]
pub enum FileAction {
    /// Open the file at this path for reading.
    Open(String),
    /// Read the metadata of the file that was opened.
    ReadMetadata,
    /// Send this response.
    Respond(AssetResponse),
}

/// An action as a plain value.
pub enum ActionView {
    Open(Seq<char>),
    ReadMetadata,
    Respond(ResponseView),
}

impl View for FileAction {
    type V = ActionView;

    open spec fn view(&self) -> ActionView {
        match *self {
            FileAction::Open(path) => ActionView::Open(path@),
            FileAction::ReadMetadata => ActionView::ReadMetadata,
            FileAction::Respond(response) => ActionView::Respond(response@),
        }
    }
}

/// A lookup as a plain value.
pub struct LookupView {
    pub plain: Seq<char>,
    pub gzip: Seq<char>,
    pub content_type: ContentType,
    pub if_modified_since: Option<int>,
    pub stage: StageView,
}

/// The asset that a lookup has found once a file is open and its metadata
/// were read.
pub open spec fn found(lookup: LookupView, gzipped: bool, last_modified: Option<int>) -> AssetView {
    AssetView {
        location: if gzipped {
            lookup.gzip
        } else {
            lookup.plain
        },
        gzipped,
        last_modified,
        content_type: lookup.content_type,
    }
}

/// The stage that follows `stage` on `event`. The sibling is tried first and
/// the asset second; a failure after that, of whatever kind, and an answer
/// that was not asked for end in `NotFound`. A response that stands stays.
pub open spec fn next_stage(lookup: LookupView, event: EventView) -> StageView {
    match (lookup.stage, event) {
        (StageView::OpenGzip, EventView::Opened) => StageView::Metadata { gzipped: true },
        (StageView::OpenGzip, EventView::Failed) => StageView::OpenPlain,
        (StageView::OpenPlain, EventView::Opened) => StageView::Metadata { gzipped: false },
        (StageView::Metadata { gzipped }, EventView::Metadata(at)) => StageView::Done(
            decide(found(lookup, gzipped, at), lookup.if_modified_since),
        ),
        (StageView::Done(response), _) => StageView::Done(response),
        _ => StageView::Done(ResponseView::NotFound),
    }
}

/// The lookup after `event`.
pub open spec fn step(lookup: LookupView, event: EventView) -> LookupView {
    LookupView { stage: next_stage(lookup, event), ..lookup }
}

/// The lookup after the events in turn.
pub open spec fn run(lookup: LookupView, events: Seq<EventView>) -> LookupView
    decreases events.len(),
{
    if events.len() == 0 {
        lookup
    } else {
        step(run(lookup, events.drop_last()), events.last())
    }
}

/// What a lookup asks for.
pub open spec fn action_of(lookup: LookupView) -> ActionView {
    match lookup.stage {
        StageView::OpenGzip => ActionView::Open(lookup.gzip),
        StageView::OpenPlain => ActionView::Open(lookup.plain),
        StageView::Metadata { .. } => ActionView::ReadMetadata,
        StageView::Done(response) => ActionView::Respond(response),
    }
}

/// The lookup that a request starts: for a path that names an asset, the two
/// places to try and the content type of the asset's name; for a path that is
/// refused, `NotFound` at once.
pub open spec fn start(
    base: Seq<char>,
    relative_path: Seq<char>,
    if_modified_since: Option<int>,
) -> LookupView {
    match parse_path(relative_path) {
        Ok(segments) => LookupView {
            plain: plain_location(base, segments),
            gzip: gzip_location(base, segments),
            content_type: content_type_of(segments.last()),
            if_modified_since,
            stage: StageView::OpenGzip,
        },
        Err(_) => LookupView {
            plain: Seq::<char>::empty(),
            gzip: Seq::<char>::empty(),
            content_type: ContentType::OctetStream,
            if_modified_since,
            stage: StageView::Done(ResponseView::NotFound),
        },
    }
}

/// One request for a file, from the first look at the disk to the response.
#[derive(Clone, Debug, PartialEq, Eq)]
pub struct FileLookup {
    plain: String,
    gzip: String,
    content_type: ContentType,
    if_modified_since: Option<HttpTimestamp>,
    stage: Stage,
}

impl View for FileLookup {
    type V = LookupView;

    closed spec fn view(&self) -> LookupView {
        LookupView {
            plain: self.plain@,
            gzip: self.gzip@,
            content_type: self.content_type,
            if_modified_since: instant_of(self.if_modified_since),
            stage: self.stage@,
        }
    }
}

impl FileLookup {
    /// What to do next.
    pub fn action(&self) -> (action: FileAction)
        ensures
            action@ == action_of(self@),
    {
        match &self.stage {
            Stage::OpenGzip => FileAction::Open(self.gzip.clone()),
            Stage::OpenPlain => FileAction::Open(self.plain.clone()),
            Stage::Metadata { .. } => FileAction::ReadMetadata,
            Stage::Done(response) => FileAction::Respond(response.duplicate()),
        }
    }

    /// The response, once it stands.
    pub fn response(&self) -> (response: Option<AssetResponse>)
        ensures
            match response {
                Some(r) => self@.stage == StageView::Done(r@),
                None => !(self@.stage is Done),
            },
    {
        match &self.stage {
            Stage::Done(response) => Some(response.duplicate()),
            _ => None,
        }
    }

    /// Takes the disk's answer to the last action.
    pub fn advance(self, event: FileEvent) -> (next: FileLookup)
        ensures
            next@ == step(self@, event@),
    {
        let FileLookup { plain, gzip, content_type, if_modified_since, stage } = self;
        let stage = match (stage, event) {
            (Stage::OpenGzip, FileEvent::Opened) => Stage::Metadata { gzipped: true },
            (Stage::OpenGzip, FileEvent::Failed) => Stage::OpenPlain,
            (Stage::OpenPlain, FileEvent::Opened) => Stage::Metadata { gzipped: false },
            (Stage::Metadata { gzipped }, FileEvent::Metadata(at)) => {
                let location = if gzipped {
                    gzip.clone()
                } else {
                    plain.clone()
                };
                let asset = ResolvedAsset { location, gzipped, last_modified: at, content_type };
                Stage::Done(AssetResponse::for_asset(asset, if_modified_since))
            },
            (Stage::Done(response), _) => Stage::Done(response),
            _ => Stage::Done(AssetResponse::NotFound),
        };
        FileLookup { plain, gzip, content_type, if_modified_since, stage }
    }
}

/// Appends the entry `name` to the path of a directory.
fn push_child(dir: &mut Vec<char>, name: &Vec<char>)
    ensures
        final(dir)@ == child(old(dir)@, name@),
{
    if dir.len() > 0 && dir[dir.len() - 1] != '/' {
        dir.push('/');
    }
    append_text(dir, name);
}

/// Serves the files below one directory.
#[derive(Debug)]
pub struct FileX {
    base: Vec<char>,
}

impl FileX {
    /// The directory below which the files lie.
    pub closed spec fn base(&self) -> Seq<char> {
        self.base@
    }

    /// A server for the files below `base`.
    pub fn new(base: String) -> (server: FileX)
        ensures
            server.base() == base@,
    {
        FileX { base: chars_of(base.as_str()) }
    }

    /// The directory below which the files lie.
    pub fn base_dir(&self) -> (dir: String)
        ensures
            dir@ == self.base(),
    {
        string_of(&self.base)
    }

    /// A server for the files of the directory `name` below this one's.
    pub fn below(&self, name: &str) -> (server: FileX)
        ensures
            server.base() == child(self.base(), name@),
    {
        let mut base = self.base.clone();
        let name = chars_of(name);
        push_child(&mut base, &name);
        FileX { base }
    }

    /// Where the asset at `path` and its compressed sibling lie. Nothing is
    /// asked of the disk.
    pub fn locate(&self, path: &AssetPath) -> (places: (String, String))
        ensures
            places.0@ == plain_location(self.base(), path.segments()),
            places.1@ == gzip_location(self.base(), path.segments()),
    {
        let n = path.len();
        let mut plain = self.base.clone();
        let mut i: usize = 0;
        proof {
            assert(path.segments().take(0) =~= Seq::<Seq<char>>::empty());
        }
        while i < n
            invariant
                i <= n,
                n == path.segments().len(),
                plain@ == descend(self.base(), path.segments().take(i as int)),
            decreases n - i,
        {
            proof {
                let upto = path.segments().take(i + 1);
                assert(upto.drop_last() =~= path.segments().take(i as int));
                assert(upto.last() == path.segments()[i as int]);
            }
            push_child(&mut plain, path.piece(i));
            i += 1;
        }
        proof {
            assert(path.segments().take(n as int) =~= path.segments());
        }
        let mut gzip = plain.clone();
        let suffix = gz_suffix_for(path.piece(n - 1));
        append_text(&mut gzip, &suffix);
        (string_of(&plain), string_of(&gzip))
    }

    /// Starts the lookup of the file at `relative_path`, for a client whose
    /// copy dates from `if_modified_since` if it has one.
    pub fn file(&self, relative_path: &str, if_modified_since: Option<HttpTimestamp>) -> (lookup:
        FileLookup)
        ensures
            lookup@ == start(self.base(), relative_path@, instant_of(if_modified_since)),
    {
        match AssetPath::parse(relative_path) {
            Ok(path) => {
                let content_type = path.content_type();
                let (plain, gzip) = self.locate(&path);
                FileLookup { plain, gzip, content_type, if_modified_since, stage: Stage::OpenGzip }
            },
            Err(_) => FileLookup {
                plain: String::new(),
                gzip: String::new(),
                content_type: ContentType::OctetStream,
                if_modified_since,
                stage: Stage::Done(AssetResponse::NotFound),
            },
        }
    }
}

/// The events of a lookup that finds the compressed sibling.
pub open spec fn sibling_found(last_modified: Option<int>) -> Seq<EventView> {
    seq![EventView::Opened, EventView::Metadata(last_modified)]
}

/// The events of a lookup that finds no sibling but the asset itself.
pub open spec fn asset_found(last_modified: Option<int>) -> Seq<EventView> {
    seq![EventView::Failed, EventView::Opened, EventView::Metadata(last_modified)]
}

/// The events of a lookup that finds neither file.
pub open spec fn nothing_found() -> Seq<EventView> {
    seq![EventView::Failed, EventView::Failed]
}

/// Where a lookup ends after it has opened a file and read its metadata.
proof fn lemma_run_found(lookup: LookupView, gzipped: bool, last_modified: Option<int>)
    requires
        lookup.stage == StageView::OpenGzip,
    ensures
        run(
            lookup,
            if gzipped {
                sibling_found(last_modified)
            } else {
                asset_found(last_modified)
            },
        ).stage == StageView::Done(
            decide(found(lookup, gzipped, last_modified), lookup.if_modified_since),
        ),
{
    reveal_with_fuel(run, 4);
    let two = sibling_found(last_modified);
    assert(two.drop_last() =~= seq![EventView::Opened]);
    assert(two.drop_last().drop_last() =~= Seq::<EventView>::empty());
    let three = asset_found(last_modified);
    assert(three.drop_last() =~= seq![EventView::Failed, EventView::Opened]);
    assert(three.drop_last().drop_last() =~= seq![EventView::Failed]);
    assert(three.drop_last().drop_last().drop_last() =~= Seq::<EventView>::empty());
}

/// Where both the asset and its compressed sibling are on disk, a request
/// without a condition is answered with the sibling: the sibling is the file
/// asked for first, and once it is open the response has status 200, the
/// sibling's bytes, a `Content-Type` that goes by the asset's own name, and
/// `Content-Encoding: gzip`.
pub proof fn law_sibling_served_first(
    base: Seq<char>,
    relative_path: Seq<char>,
    segments: Seq<Seq<char>>,
    last_modified: Option<int>,
)
    requires
        parse_path(relative_path) == Ok::<Seq<Seq<char>>, PathError>(segments),
    ensures
        ({
            let lookup = start(base, relative_path, None);
            let response = run(lookup, sibling_found(last_modified)).stage->Done_0;
            &&& action_of(lookup) == ActionView::Open(gzip_location(base, segments))
            &&& run(lookup, sibling_found(last_modified)).stage is Done
            &&& head_of(response).status == 200
            &&& body_of(response) == Some(gzip_location(base, segments))
            &&& head_of(response).headers[0] == (
                HeaderName::ContentType,
                media_type_text(content_type_of(segments.last())),
            )
            &&& head_of(response).headers[1] == (HeaderName::ContentEncoding, "gzip"@)
        }),
{
    let lookup = start(base, relative_path, None);
    lemma_run_found(lookup, true, last_modified);
}

/// Where only the asset itself is on disk, the response to a request whose
/// condition does not hold (or that has none) has status 200, the asset's
/// bytes and no `Content-Encoding` header.
pub proof fn law_asset_served_plain(
    base: Seq<char>,
    relative_path: Seq<char>,
    segments: Seq<Seq<char>>,
    if_modified_since: Option<int>,
    last_modified: Option<int>,
)
    requires
        parse_path(relative_path) == Ok::<Seq<Seq<char>>, PathError>(segments),
        !is_current(if_modified_since, last_modified),
    ensures
        ({
            let lookup = start(base, relative_path, if_modified_since);
            let response = run(lookup, asset_found(last_modified)).stage->Done_0;
            &&& run(lookup, asset_found(last_modified)).stage is Done
            &&& head_of(response).status == 200
            &&& body_of(response) == Some(plain_location(base, segments))
            &&& head_of(response).headers[0] == (
                HeaderName::ContentType,
                media_type_text(content_type_of(segments.last())),
            )
            &&& !has_header(head_of(response).headers, HeaderName::ContentEncoding)
        }),
{
    let lookup = start(base, relative_path, if_modified_since);
    lemma_run_found(lookup, false, last_modified);
}

/// For a file last modified at `server`, a request that carries the time
/// `client` is answered with status 304 and no body where `client` is
/// `server` or later, and with status 200 and the file's bytes where it is
/// earlier; whichever of the two files was found.
pub proof fn law_conditional_get(
    base: Seq<char>,
    relative_path: Seq<char>,
    segments: Seq<Seq<char>>,
    gzipped: bool,
    client: int,
    server: int,
)
    requires
        parse_path(relative_path) == Ok::<Seq<Seq<char>>, PathError>(segments),
    ensures
        ({
            let lookup = start(base, relative_path, Some(client));
            let events = if gzipped {
                sibling_found(Some(server))
            } else {
                asset_found(Some(server))
            };
            let response = run(lookup, events).stage->Done_0;
            &&& run(lookup, events).stage is Done
            &&& client >= server ==> response == ResponseView::NotModified && head_of(
                response,
            ).status == 304 && body_of(response) is None && head_of(response).headers.len() == 0
            &&& client < server ==> head_of(response).status == 200 && body_of(response) == Some(
                if gzipped {
                    gzip_location(base, segments)
                } else {
                    plain_location(base, segments)
                },
            )
        }),
{
    let lookup = start(base, relative_path, Some(client));
    lemma_run_found(lookup, gzipped, Some(server));
}

/// A path that names no file below the root is answered with status 404 and
/// no body: a path that is refused at once, and a path for which neither the
/// sibling nor the asset can be opened after both were tried.
pub proof fn law_missing_is_not_found(
    base: Seq<char>,
    relative_path: Seq<char>,
    if_modified_since: Option<int>,
)
    ensures
        ({
            let lookup = start(base, relative_path, if_modified_since);
            let end = if parse_path(relative_path) is Err {
                lookup
            } else {
                run(lookup, nothing_found())
            };
            &&& end.stage == StageView::Done(ResponseView::NotFound)
            &&& action_of(end) == ActionView::Respond(ResponseView::NotFound)
            &&& head_of(ResponseView::NotFound).status == 404
            &&& head_of(ResponseView::NotFound).headers.len() == 0
            &&& body_of(ResponseView::NotFound) is None
        }),
{
    reveal_with_fuel(run, 3);
    let events = nothing_found();
    assert(events.drop_last() =~= seq![EventView::Failed]);
    assert(events.drop_last().drop_last() =~= Seq::<EventView>::empty());
}

/// A file that was opened but whose metadata cannot be read is answered like
/// a missing one, and a response that stands is changed by no later event.
pub proof fn law_failures_end_in_not_found(lookup: LookupView, event: EventView)
    ensures
        lookup.stage is Metadata && event == EventView::Failed ==> step(lookup, event).stage
            == StageView::Done(ResponseView::NotFound),
        lookup.stage is Done ==> step(lookup, event).stage == lookup.stage,
{
}

/// The events of a lookup change its stage alone: the two places to try,
/// the content type and the client's time stay what they were.
pub proof fn lemma_run_keeps_request(lookup: LookupView, events: Seq<EventView>)
    ensures
        run(lookup, events).plain == lookup.plain,
        run(lookup, events).gzip == lookup.gzip,
        run(lookup, events).content_type == lookup.content_type,
        run(lookup, events).if_modified_since == lookup.if_modified_since,
    decreases events.len(),
{
    if events.len() > 0 {
        lemma_run_keeps_request(lookup, events.drop_last());
    }
}

/// A response that stands is changed by no events.
proof fn lemma_run_ends(lookup: LookupView, events: Seq<EventView>)
    requires
        lookup.stage is Done,
    ensures
        run(lookup, events).stage == lookup.stage,
    decreases events.len(),
{
    if events.len() > 0 {
        lemma_run_ends(lookup, events.drop_last());
    }
}

/// Whatever the disk answers, every path that a lookup asks to open lies
/// below the base directory.
pub proof fn law_lookup_stays_below_base(
    base: Seq<char>,
    relative_path: Seq<char>,
    if_modified_since: Option<int>,
    events: Seq<EventView>,
)
    ensures
        action_of(run(start(base, relative_path, if_modified_since), events)) matches ActionView::Open(
            path,
        ) ==> base.is_prefix_of(path),
{
    let lookup = start(base, relative_path, if_modified_since);
    lemma_run_keeps_request(lookup, events);
    match parse_path(relative_path) {
        Ok(segments) => {
            lemma_descend_below(base, segments);
            let plain = plain_location(base, segments);
            let gzip = gzip_location(base, segments);
            assert(gzip.subrange(0, base.len() as int) =~= plain.subrange(0, base.len() as int));
        },
        Err(_) => {
            lemma_run_ends(lookup, events);
        },
    }
}

/// A lookup is over after three answers of the disk at most: whatever they
/// are, the response stands then.
pub proof fn law_lookup_ends_after_three_answers(
    base: Seq<char>,
    relative_path: Seq<char>,
    if_modified_since: Option<int>,
    first: EventView,
    second: EventView,
    third: EventView,
)
    ensures
        run(start(base, relative_path, if_modified_since), seq![first, second, third]).stage
            is Done,
{
    reveal_with_fuel(run, 4);
    let events = seq![first, second, third];
    assert(events.drop_last() =~= seq![first, second]);
    assert(events.drop_last().drop_last() =~= seq![first]);
    assert(events.drop_last().drop_last().drop_last() =~= Seq::<EventView>::empty());
}

} // verus!
