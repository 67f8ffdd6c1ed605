//! The route table: which handler answers which method and path.
use vstd::prelude::*;
use crate::pattern::{
    ends_in_wildcard, match_segments, path_pieces, pieces_of, texts, Pattern, SegmentView,
};
use crate::text::{chars_of, rows, same_text};

verus! {

/// The request methods of HTTP.
#[derive(Clone, Copy, Debug, PartialEq, Eq, Structural)]
pub enum Method {
    Get,
    Post,
    Put,
    Delete,
    Head,
    Options,
    Patch,
    Connect,
    Trace,
}

/// The method that a token of a request line names. Tokens are compared
/// letter for letter: `get` names no method.
pub open spec fn method_of(token: Seq<char>) -> Option<Method> {
    if token == seq!['G', 'E', 'T'] {
        Some(Method::Get)
    } else if token == seq!['P', 'O', 'S', 'T'] {
        Some(Method::Post)
    } else if token == seq!['P', 'U', 'T'] {
        Some(Method::Put)
    } else if token == seq!['D', 'E', 'L', 'E', 'T', 'E'] {
        Some(Method::Delete)
    } else if token == seq!['H', 'E', 'A', 'D'] {
        Some(Method::Head)
    } else if token == seq!['O', 'P', 'T', 'I', 'O', 'N', 'S'] {
        Some(Method::Options)
    } else if token == seq!['P', 'A', 'T', 'C', 'H'] {
        Some(Method::Patch)
    } else if token == seq!['C', 'O', 'N', 'N', 'E', 'C', 'T'] {
        Some(Method::Connect)
    } else if token == seq!['T', 'R', 'A', 'C', 'E'] {
        Some(Method::Trace)
    } else {
        None
    }
}

/// Whether `text` holds exactly the characters of `word`.
fn is_word(text: &Vec<char>, word: Vec<char>) -> (r: bool)
    ensures
        r == (text@ == word@),
{
    same_text(text, &word)
}

impl Method {
    /// The method that `token` names, if it names one.
    pub fn from_token(token: &str) -> (method: Option<Method>)
        ensures
            method == method_of(token@),
    {
        let text = chars_of(token);
        if is_word(&text, vec!['G', 'E', 'T']) {
            Some(Method::Get)
        } else if is_word(&text, vec!['P', 'O', 'S', 'T']) {
            Some(Method::Post)
        } else if is_word(&text, vec!['P', 'U', 'T']) {
            Some(Method::Put)
        } else if is_word(&text, vec!['D', 'E', 'L', 'E', 'T', 'E']) {
            Some(Method::Delete)
        } else if is_word(&text, vec!['H', 'E', 'A', 'D']) {
            Some(Method::Head)
        } else if is_word(&text, vec!['O', 'P', 'T', 'I', 'O', 'N', 'S']) {
            Some(Method::Options)
        } else if is_word(&text, vec!['P', 'A', 'T', 'C', 'H']) {
            Some(Method::Patch)
        } else if is_word(&text, vec!['C', 'O', 'N', 'N', 'E', 'C', 'T']) {
            Some(Method::Connect)
        } else if is_word(&text, vec!['T', 'R', 'A', 'C', 'E']) {
            Some(Method::Trace)
        } else {
            None
        }
    }
}

/// The handlers that a route can name.
#[derive(Clone, Copy, Debug, PartialEq, Eq, Structural)]
pub enum Endpoint {
    Index,
    Help,
    Asset,
    Execute,
    Compile,
    Format,
    Clippy,
    Miri,
    Evaluate,
    MetaCrates,
    MetaVersionStable,
    MetaVersionBeta,
    MetaVersionNightly,
    GistCreate,
    GistShow,
}

/// The content type that a route declares for its responses.
#[derive(Clone, Copy, Debug, PartialEq, Eq, Structural)]
pub enum Produces {
    /// `application/json`, whatever the response.
    Json,
    /// The content type of the file that is served.
    File,
}

/// One line of the route table.
#[derive(Debug, PartialEq, Eq)]
pub struct RouteEntry {
    pub method: Method,
    pub pattern: Pattern,
    pub handler: Endpoint,
    pub produces: Produces,
}

/// A line of the route table as a plain value.
pub struct RouteView {
    pub method: Method,
    pub pattern: Seq<SegmentView>,
    pub handler: Endpoint,
    pub produces: Produces,
}

impl View for RouteEntry {
    type V = RouteView;

    open spec fn view(&self) -> RouteView {
        RouteView {
            method: self.method,
            pattern: self.pattern@,
            handler: self.handler,
            produces: self.produces,
        }
    }
}

/// The lines that a vector of entries holds, as plain values.
pub open spec fn table(entries: Seq<RouteEntry>) -> Seq<RouteView> {
    Seq::new(entries.len(), |i: int| entries[i]@)
}

/// The route that a request was matched with.
#[derive(Clone, Debug, PartialEq, Eq)]
pub struct RouteMatch {
    pub handler: Endpoint,
    pub produces: Produces,
    /// What the pattern's parameters and wildcard captured, in order.
    pub captures: Vec<String>,
}

/// A match as a plain value.
pub struct MatchView {
    pub handler: Endpoint,
    pub produces: Produces,
    pub captures: Seq<Seq<char>>,
}

impl View for RouteMatch {
    type V = MatchView;

    open spec fn view(&self) -> MatchView {
        MatchView {
            handler: self.handler,
            produces: self.produces,
            captures: texts(self.captures@),
        }
    }
}

/// The match of one entry with a request: the method must be the entry's
/// own and the pattern must match the path.
pub open spec fn try_route(entry: RouteView, method: Method, path: Seq<Seq<char>>) -> Option<
    MatchView,
> {
    if entry.method == method {
        match match_segments(entry.pattern, path) {
            Some(captures) => Some(
                MatchView { handler: entry.handler, produces: entry.produces, captures },
            ),
            None => None,
        }
    } else {
        None
    }
}

/// The match of the first entry that matches the request.
pub open spec fn first_match(entries: Seq<RouteView>, method: Method, path: Seq<Seq<char>>)
    -> Option<MatchView>
    decreases entries.len(),
{
    if entries.len() == 0 {
        None
    } else if try_route(entries[0], method, path) is Some {
        try_route(entries[0], method, path)
    } else {
        first_match(entries.skip(1), method, path)
    }
}

/// Two entries that answer to the same method and pattern.
pub open spec fn same_route(a: RouteView, b: RouteView) -> bool {
    a.method == b.method && a.pattern == b.pattern
}

/// Whether the table holds an entry with the method and pattern of `entry`.
pub open spec fn conflicts(entries: Seq<RouteView>, entry: RouteView) -> bool {
    exists|i: int| 0 <= i < entries.len() && same_route(#[trigger] entries[i], entry)
}

/// No two entries of the table answer to the same method and pattern.
pub open spec fn distinct(entries: Seq<RouteView>) -> bool {
    forall|i: int, j: int|
        0 <= i < j < entries.len() ==> !same_route(#[trigger] entries[i], #[trigger] entries[j])
}

/// A route table as a plain value: the entries without wildcard and those
/// with one, each kind in the order in which its entries came.
pub struct TableView {
    pub specific: Seq<RouteView>,
    pub wildcard: Seq<RouteView>,
}

impl TableView {
    /// The entries in the order in which they are tried: those without
    /// wildcard first.
    pub open spec fn entries(self) -> Seq<RouteView> {
        self.specific + self.wildcard
    }

    /// Every entry stands with its kind.
    pub open spec fn sorted(self) -> bool {
        &&& forall|i: int|
            0 <= i < self.specific.len() ==> !ends_in_wildcard(
                (#[trigger] self.specific[i]).pattern,
            )
        &&& forall|i: int|
            0 <= i < self.wildcard.len() ==> ends_in_wildcard((#[trigger] self.wildcard[i]).pattern)
    }

    /// The table with `entry` put in, behind the entries of its kind.
    pub open spec fn placed(self, entry: RouteView) -> TableView {
        if ends_in_wildcard(entry.pattern) {
            TableView { wildcard: self.wildcard.push(entry), ..self }
        } else {
            TableView { specific: self.specific.push(entry), ..self }
        }
    }

    /// The table with the routes put in one after the other, up to the first
    /// that the table holds already; and whether all were put in.
    pub open spec fn mounted(self, routes: Seq<RouteView>) -> (TableView, bool)
        decreases routes.len(),
    {
        if routes.len() == 0 {
            (self, true)
        } else if conflicts(self.entries(), routes[0]) {
            (self, false)
        } else {
            self.placed(routes[0]).mounted(routes.skip(1))
        }
    }
}

/// The table without entries.
pub open spec fn empty_table() -> TableView {
    TableView { specific: Seq::<RouteView>::empty(), wildcard: Seq::<RouteView>::empty() }
}

/// Why an entry was not taken into the table.
#[derive(Clone, Copy, Debug, PartialEq, Eq, Structural)]
pub enum RouteError {
    /// The table holds an entry for this method and pattern.
    Duplicate,
}

/// The first entry that matches is the one that answers, and where none
/// matches there is no answer.
pub proof fn lemma_first_match(entries: Seq<RouteView>, method: Method, path: Seq<Seq<char>>)
    ensures
        match first_match(entries, method, path) {
            Some(found) => exists|i: int|
                0 <= i < entries.len() && try_route(#[trigger] entries[i], method, path) == Some(
                    found,
                ) && forall|j: int|
                    0 <= j < i ==> try_route(#[trigger] entries[j], method, path) is None,
            None => forall|i: int|
                0 <= i < entries.len() ==> try_route(#[trigger] entries[i], method, path) is None,
        },
    decreases entries.len(),
{
    if entries.len() > 0 && try_route(entries[0], method, path) is None {
        let rest = entries.skip(1);
        lemma_first_match(rest, method, path);
        match first_match(rest, method, path) {
            Some(found) => {
                let i = choose|i: int|
                    0 <= i < rest.len() && try_route(#[trigger] rest[i], method, path) == Some(
                        found,
                    ) && forall|j: int|
                        0 <= j < i ==> try_route(#[trigger] rest[j], method, path) is None;
                assert(entries[i + 1] == rest[i]);
                assert forall|j: int| 0 <= j < i + 1 implies try_route(
                    #[trigger] entries[j],
                    method,
                    path,
                ) is None by {
                    if j > 0 {
                        assert(entries[j] == rest[j - 1]);
                    }
                }
            },
            None => {
                assert forall|i: int| 0 <= i < entries.len() implies try_route(
                    #[trigger] entries[i],
                    method,
                    path,
                ) is None by {
                    if i > 0 {
                        assert(entries[i] == rest[i - 1]);
                    }
                }
            },
        }
    } else if entries.len() > 0 {
        assert(try_route(entries[0], method, path) is Some);
    }
}

/// Putting an entry that the table does not hold into a table without
/// doubles gives a table without doubles, and a sorted table stays sorted.
pub proof fn lemma_placed(t: TableView, entry: RouteView)
    requires
        distinct(t.entries()),
        t.sorted(),
        !conflicts(t.entries(), entry),
    ensures
        distinct(t.placed(entry).entries()),
        t.placed(entry).sorted(),
{
    let before = t.entries();
    let after = t.placed(entry).entries();
    let slot = if ends_in_wildcard(entry.pattern) {
        before.len() as int
    } else {
        t.specific.len() as int
    };
    assert(after =~= before.insert(slot, entry));
    assert forall|a: int, b: int| 0 <= a < b < after.len() implies !same_route(
        #[trigger] after[a],
        #[trigger] after[b],
    ) by {
        let a0 = if a < slot { a } else { a - 1 };
        let b0 = if b < slot { b } else { b - 1 };
        if a == slot {
            assert(after[b] == before[b0]);
        } else if b == slot {
            assert(after[a] == before[a0]);
        } else {
            assert(after[a] == before[a0]);
            assert(after[b] == before[b0]);
        }
    }
    let placed = t.placed(entry);
    assert forall|i: int| 0 <= i < placed.specific.len() implies !ends_in_wildcard(
        (#[trigger] placed.specific[i]).pattern,
    ) by {
        if i < t.specific.len() {
            assert(placed.specific[i] == t.specific[i]);
        }
    }
    assert forall|i: int| 0 <= i < placed.wildcard.len() implies ends_in_wildcard(
        (#[trigger] placed.wildcard[i]).pattern,
    ) by {
        if i < t.wildcard.len() {
            assert(placed.wildcard[i] == t.wildcard[i]);
        }
    }
}

/// The route table.
#[derive(Debug)]
pub struct Router {
    specific: Vec<RouteEntry>,
    wildcard: Vec<RouteEntry>,
}

impl View for Router {
    type V = TableView;

    closed spec fn view(&self) -> TableView {
        TableView { specific: table(self.specific@), wildcard: table(self.wildcard@) }
    }
}

impl Router {
    /// No two entries answer to the same method and pattern, and every entry
    /// stands with its kind. `new` makes such a table, and `add` and `mount`
    /// keep it one.
    pub open spec fn wf(&self) -> bool {
        distinct(self@.entries()) && self@.sorted()
    }

    /// A table without entries.
    pub fn new() -> (router: Router)
        ensures
            router.wf(),
            router@ == empty_table(),
    {
        let router = Router { specific: Vec::new(), wildcard: Vec::new() };
        proof {
            assert(router@.specific =~= Seq::<RouteView>::empty());
            assert(router@.wildcard =~= Seq::<RouteView>::empty());
        }
        router
    }

    /// The entries without wildcard, in the order in which they are tried.
    pub fn specific(&self) -> (entries: &Vec<RouteEntry>)
        ensures
            table(entries@) == self@.specific,
    {
        &self.specific
    }

    /// The entries with a wildcard, in the order in which they are tried
    /// once no entry without wildcard has matched.
    pub fn wildcard(&self) -> (entries: &Vec<RouteEntry>)
        ensures
            table(entries@) == self@.wildcard,
    {
        &self.wildcard
    }

    /// Whether the table holds an entry for the method and pattern of
    /// `entry`.
    pub fn holds(&self, entry: &RouteEntry) -> (r: bool)
        ensures
            r == conflicts(self@.entries(), entry@),
    {
        let ghost all = self@.entries();
        let mut i: usize = 0;
        while i < self.specific.len()
            invariant
                i <= self.specific.len(),
                all == self@.entries(),
                forall|j: int| 0 <= j < i ==> !same_route(#[trigger] all[j], entry@),
            decreases self.specific.len() - i,
        {
            let other = &self.specific[i];
            assert(other@ == all[i as int]);
            if other.method == entry.method && other.pattern.same(&entry.pattern) {
                return true;
            }
            i += 1;
        }
        let mut k: usize = 0;
        while k < self.wildcard.len()
            invariant
                k <= self.wildcard.len(),
                all == self@.entries(),
                forall|j: int|
                    0 <= j < self.specific.len() + k ==> !same_route(#[trigger] all[j], entry@),
            decreases self.wildcard.len() - k,
        {
            let other = &self.wildcard[k];
            assert(other@ == all[self.specific.len() + k]);
            if other.method == entry.method && other.pattern.same(&entry.pattern) {
                return true;
            }
            k += 1;
        }
        false
    }

    /// Puts `entry` into the table, unless the table holds an entry for its
    /// method and pattern already: then the table stays as it is.
    pub fn add(&mut self, entry: RouteEntry) -> (r: Result<(), RouteError>)
        requires
            old(self).wf(),
        ensures
            final(self).wf(),
            match r {
                Ok(()) => !conflicts(old(self)@.entries(), entry@) && final(self)@ == old(
                    self,
                )@.placed(entry@),
                Err(e) => e == RouteError::Duplicate && conflicts(old(self)@.entries(), entry@)
                    && final(self)@ == old(self)@,
            },
    {
        if self.holds(&entry) {
            return Err(RouteError::Duplicate);
        }
        proof {
            lemma_placed(self@, entry@);
        }
        let ghost before = self@;
        if entry.pattern.has_wildcard() {
            self.wildcard.push(entry);
            proof {
                assert(self@.wildcard =~= before.wildcard.push(entry@));
                assert(self@.specific =~= before.specific);
            }
        } else {
            self.specific.push(entry);
            proof {
                assert(self@.specific =~= before.specific.push(entry@));
                assert(self@.wildcard =~= before.wildcard);
            }
        }
        Ok(())
    }

    /// Puts the routes of a resource group into the table, one after the
    /// other. It stops at the first that the table holds already.
    pub fn mount(&mut self, routes: Vec<RouteEntry>) -> (r: Result<(), RouteError>)
        requires
            old(self).wf(),
        ensures
            final(self).wf(),
            final(self)@ == old(self)@.mounted(table(routes@)).0,
            match r {
                Ok(()) => old(self)@.mounted(table(routes@)).1,
                Err(e) => e == RouteError::Duplicate && !old(self)@.mounted(table(routes@)).1,
            },
    {
        let ghost all = table(routes@);
        let mut rest = routes;
        while rest.len() > 0
            invariant
                self.wf(),
                all == table(routes@),
                old(self)@.mounted(all) == self@.mounted(table(rest@)),
            decreases rest.len(),
        {
            let ghost left = table(rest@);
            let entry = rest.remove(0);
            proof {
                assert(left[0] == entry@);
                assert(table(rest@) =~= left.skip(1));
            }
            match self.add(entry) {
                Ok(()) => {},
                Err(e) => {
                    return Err(e);
                },
            }
        }
        Ok(())
    }

    /// The route that answers a request for `path` with `method`: the first
    /// entry of the table whose method is `method` and whose pattern matches
    /// the path. `None` where no entry does.
    pub fn route(&self, method: Method, path: &str) -> (r: Option<RouteMatch>)
        ensures
            match r {
                Some(found) => first_match(self@.entries(), method, path_pieces(path@)) == Some(
                    found@,
                ),
                None => first_match(self@.entries(), method, path_pieces(path@)) is None,
            },
    {
        let pieces = pieces_of(path);
        let ghost all = self@.entries();
        let ghost segments = path_pieces(path@);
        let specific = self.specific.len();
        let mut i: usize = 0;
        proof {
            assert(all.skip(0) =~= all);
        }
        while i < specific
            invariant
                i <= specific,
                specific == self.specific.len(),
                all == self@.entries(),
                segments == rows(pieces@),
                segments == path_pieces(path@),
                first_match(all, method, segments) == first_match(
                    all.skip(i as int),
                    method,
                    segments,
                ),
            decreases specific - i,
        {
            let entry = &self.specific[i];
            proof {
                assert(all.skip(i as int)[0] == entry@);
                assert(all.skip(i as int).skip(1) =~= all.skip(i + 1));
            }
            if entry.method == method {
                if let Some(captures) = entry.pattern.captures(&pieces) {
                    return Some(
                        RouteMatch { handler: entry.handler, produces: entry.produces, captures },
                    );
                }
            }
            i += 1;
        }
        let mut k: usize = 0;
        while k < self.wildcard.len()
            invariant
                k <= self.wildcard.len(),
                specific == self.specific.len(),
                all == self@.entries(),
                segments == rows(pieces@),
                segments == path_pieces(path@),
                first_match(all, method, segments) == first_match(
                    all.skip(specific + k),
                    method,
                    segments,
                ),
            decreases self.wildcard.len() - k,
        {
            let entry = &self.wildcard[k];
            proof {
                assert(all.skip(specific + k)[0] == entry@);
                assert(all.skip(specific + k).skip(1) =~= all.skip(specific + k + 1));
            }
            if entry.method == method {
                if let Some(captures) = entry.pattern.captures(&pieces) {
                    return Some(
                        RouteMatch { handler: entry.handler, produces: entry.produces, captures },
                    );
                }
            }
            k += 1;
        }
        proof {
            assert(all.skip(all.len() as int).len() == 0);
        }
        None
    }
}

/// A request that no entry of the table matches has no route, and only such
/// a request has none.
pub proof fn law_no_entry_no_route(entries: Seq<RouteView>, method: Method, path: Seq<Seq<char>>)
    ensures
        first_match(entries, method, path) is None <==> forall|i: int|
            0 <= i < entries.len() ==> try_route(#[trigger] entries[i], method, path) is None,
{
    lemma_first_match(entries, method, path);
}

/// Where an entry without wildcard matches a request, the request is
/// answered by an entry without wildcard, that one or one that came before
/// it: no wildcard takes a request from a specific entry, whichever was put
/// into the table first.
pub proof fn law_specific_entry_preferred(
    t: TableView,
    method: Method,
    path: Seq<Seq<char>>,
    k: int,
)
    requires
        0 <= k < t.specific.len(),
        try_route(t.specific[k], method, path) is Some,
    ensures
        exists|i: int|
            0 <= i <= k && first_match(t.entries(), method, path) == try_route(
                #[trigger] t.specific[i],
                method,
                path,
            ) && try_route(t.specific[i], method, path) is Some,
{
    let entries = t.entries();
    lemma_first_match(entries, method, path);
    assert(entries[k] == t.specific[k]);
    let found = first_match(entries, method, path)->Some_0;
    let i = choose|i: int|
        0 <= i < entries.len() && try_route(#[trigger] entries[i], method, path) == Some(found)
            && forall|j: int| 0 <= j < i ==> try_route(#[trigger] entries[j], method, path) is None;
    assert(i <= k);
    assert(entries[i] == t.specific[i]);
}

/// The routes without wildcard, in order.
pub open spec fn without_wildcard(routes: Seq<RouteView>) -> Seq<RouteView>
    decreases routes.len(),
{
    if routes.len() == 0 {
        Seq::<RouteView>::empty()
    } else if ends_in_wildcard(routes[0].pattern) {
        without_wildcard(routes.skip(1))
    } else {
        seq![routes[0]] + without_wildcard(routes.skip(1))
    }
}

/// The routes with a wildcard, in order.
pub open spec fn with_wildcard(routes: Seq<RouteView>) -> Seq<RouteView>
    decreases routes.len(),
{
    if routes.len() == 0 {
        Seq::<RouteView>::empty()
    } else if ends_in_wildcard(routes[0].pattern) {
        seq![routes[0]] + with_wildcard(routes.skip(1))
    } else {
        with_wildcard(routes.skip(1))
    }
}

/// In a list without doubles any two entries at different places differ.
proof fn lemma_distinct_pair(entries: Seq<RouteView>, i: int, j: int)
    requires
        distinct(entries),
        0 <= i < entries.len(),
        0 <= j < entries.len(),
        i != j,
    ensures
        !same_route(entries[i], entries[j]),
{
    if i < j {
        assert(!same_route(entries[i], entries[j]));
    } else {
        assert(!same_route(entries[j], entries[i]));
    }
}

/// Routes that differ from each other and from the entries of the table are
/// all put in: mounting them fails on none, and leaves each behind the
/// entries of its kind, in the order in which they came.
pub proof fn law_mount_without_doubles(t: TableView, routes: Seq<RouteView>)
    requires
        distinct(t.entries() + routes),
    ensures
        t.mounted(routes) == (
            TableView {
                specific: t.specific + without_wildcard(routes),
                wildcard: t.wildcard + with_wildcard(routes),
            },
            true,
        ),
    decreases routes.len(),
{
    let all = t.entries() + routes;
    let s = t.specific.len() as int;
    let w = t.wildcard.len() as int;
    if routes.len() == 0 {
        assert(t.specific + without_wildcard(routes) =~= t.specific);
        assert(t.wildcard + with_wildcard(routes) =~= t.wildcard);
    } else {
        let first = routes[0];
        assert(all[s + w] == first);
        if conflicts(t.entries(), first) {
            let i = choose|i: int|
                0 <= i < t.entries().len() && same_route(#[trigger] t.entries()[i], first);
            assert(all[i] == t.entries()[i]);
            lemma_distinct_pair(all, i, s + w);
        }
        let next = t.placed(first);
        let rest = routes.skip(1);
        let after = next.entries() + rest;
        let wild = ends_in_wildcard(first.pattern);
        assert forall|a: int, b: int| 0 <= a < b < after.len() implies !same_route(
            #[trigger] after[a],
            #[trigger] after[b],
        ) by {
            let fa = if wild || a < s || a > s + w {
                a
            } else if a == s {
                s + w
            } else {
                a - 1
            };
            let fb = if wild || b < s || b > s + w {
                b
            } else if b == s {
                s + w
            } else {
                b - 1
            };
            assert(after[a] == all[fa]);
            assert(after[b] == all[fb]);
            lemma_distinct_pair(all, fa, fb);
        }
        law_mount_without_doubles(next, rest);
        if wild {
            assert(t.wildcard.push(first) + with_wildcard(rest) =~= t.wildcard + with_wildcard(
                routes,
            ));
        } else {
            assert(t.specific.push(first) + without_wildcard(rest) =~= t.specific
                + without_wildcard(routes));
        }
    }
}

} // verus!
