//! The client the editor talks to: routes each call to the session of the
//! language that owns the document, starting or replacing that session when
//! needed, and keeps the sessions of different languages independent.

use crate::codec::Message;
use crate::lsp::{
    document_params, initialize_params, located_params, LSPRequest, Position, TextDocumentIdentifier,
};
use crate::session::{CallError, Phase, Received, Resolution, Session};
use vstd::prelude::*;

verus! {

/// How to run the language server of one language.
#[derive(Debug, Clone)]
pub struct ServerDescriptor {
    pub language: String,
    pub command: String,
    pub args: Vec<String>,
    /// File extensions (without the dot) of the documents this server handles.
    pub extensions: Vec<String>,
}

/// Why a call could not be issued.
#[derive(Debug, Clone, Copy, PartialEq, Eq, Structural)]
pub enum ClientError {
    /// No configured server handles the document's extension.
    UnsupportedLanguage,
    /// The language's session is shutting down.
    SessionClosed,
    /// The language's session has used every request id.
    IdsExhausted,
}

/// A call that was issued: the language (index of its server) and the
/// request id within that language's session. `spawn` is set when the
/// server process must be started before the session's messages are written.
#[derive(Debug, Clone, Copy, PartialEq, Eq, Structural)]
pub struct Call {
    pub language: usize,
    pub id: u64,
    pub spawn: bool,
}

/// Whether `uri` ends with `.` followed by `ext`.
pub open spec fn has_extension(uri: Seq<char>, ext: Seq<char>) -> bool {
    &&& uri.len() > ext.len()
    &&& uri[uri.len() - ext.len() - 1] == '.'
    &&& uri.subrange(uri.len() - ext.len(), uri.len() as int) == ext
}

/// Whether the server `d` handles the document `uri`.
pub open spec fn serves(d: ServerDescriptor, uri: Seq<char>) -> bool {
    exists|j: int| 0 <= j < d.extensions@.len() && has_extension(uri, d.extensions@[j]@)
}

/// The first configured server that handles `uri` is the one at `i`.
pub open spec fn routes_to(ds: Seq<ServerDescriptor>, uri: Seq<char>, i: int) -> bool {
    &&& 0 <= i < ds.len()
    &&& serves(ds[i], uri)
    &&& forall|j: int| 0 <= j < i ==> !serves(#[trigger] ds[j], uri)
}

/// The server that handles `uri`, where one does.
pub open spec fn routed(ds: Seq<ServerDescriptor>, uri: Seq<char>) -> int {
    choose|i: int| routes_to(ds, uri, i)
}

pub open spec fn unrouted(ds: Seq<ServerDescriptor>, uri: Seq<char>) -> bool {
    forall|j: int| 0 <= j < ds.len() ==> !serves(#[trigger] ds[j], uri)
}

/// The session a call starts from: a terminated one is replaced by a fresh
/// one, any other is used as it is.
pub open spec fn start_of(s: Session, s0: Session) -> bool {
    if s.phase == Phase::Terminated {
        &&& s0.phase == Phase::Uninitialized
        &&& s0.pending@.len() == 0
        &&& s0.outgoing@.len() == 0
        &&& s0.written@.len() == 0
        &&& s0.next_id == 0
        &&& s0.init_params == s.init_params
    } else {
        s0 == s
    }
}

pub open spec fn call_result(i: int, spawn: bool, r: Result<u64, CallError>) -> Result<Call, ClientError> {
    match r {
        Ok(id) => Ok(Call { language: i as usize, id, spawn }),
        Err(CallError::SessionClosed) => Err(ClientError::SessionClosed),
        Err(CallError::IdsExhausted) => Err(ClientError::IdsExhausted),
    }
}

/// Routes editor calls to one session per configured language server.
pub struct LSPClient {
    pub descriptors: Vec<ServerDescriptor>,
    /// One session per configured server, at the same index.
    pub sessions: Vec<Session>,
    /// JSON text of the initialization parameters every session sends.
    pub init_params: String,
    pub workspace_folders: Vec<String>,
}

impl LSPClient {
    pub open spec fn wf(&self) -> bool {
        &&& self.sessions@.len() == self.descriptors@.len()
        &&& forall|i: int| 0 <= i < self.sessions@.len() ==> (#[trigger] self.sessions@[i]).wf()
        &&& forall|i: int|
            0 <= i < self.sessions@.len() ==> (#[trigger] self.sessions@[i]).init_params
                == self.init_params
    }

    /// Only the session at `i` may differ between `s` and `t`.
    pub open spec fn others_unchanged(s: LSPClient, t: LSPClient, i: int) -> bool {
        &&& t.descriptors == s.descriptors
        &&& t.init_params == s.init_params
        &&& t.workspace_folders == s.workspace_folders
        &&& t.sessions@.len() == s.sessions@.len()
        &&& forall|j: int| 0 <= j < s.sessions@.len() && j != i ==> t.sessions@[j] == s.sessions@[j]
    }

    /// The state `t` and result `r` of issuing `method` with `params` for the
    /// document `uri` on `s`.
    pub open spec fn dispatch_post(
        s: LSPClient,
        t: LSPClient,
        uri: Seq<char>,
        method: Seq<char>,
        params: Seq<char>,
        r: Result<Call, ClientError>,
    ) -> bool {
        &&& (unrouted(s.descriptors@, uri) ==> r == Err::<Call, ClientError>(
            ClientError::UnsupportedLanguage,
        ) && t == s)
        &&& (!unrouted(s.descriptors@, uri) ==> Self::routed_post(
            s,
            t,
            routed(s.descriptors@, uri),
            method,
            params,
            r,
        ))
    }

    /// The state `t` and result `r` of issuing `method` with `params` on the
    /// session of the server at `i`.
    pub open spec fn routed_post(
        s: LSPClient,
        t: LSPClient,
        i: int,
        method: Seq<char>,
        params: Seq<char>,
        r: Result<Call, ClientError>,
    ) -> bool {
        &&& Self::others_unchanged(s, t, i)
        &&& exists|s0: Session, rr: Result<u64, CallError>|
            start_of(s.sessions@[i], s0) && Session::issue_post(s0, t.sessions@[i], method, params, rr)
                && r == call_result(i, s0.phase == Phase::Uninitialized, rr)
    }

    /// A client for the workspace at `workspace_uri`, with no server yet.
    /// `process_id` is the editor's process id, sent at initialization.
    pub fn new(workspace_uri: String, process_id: Option<u32>) -> (c: LSPClient)
        ensures
            c.wf(),
            c.descriptors@.len() == 0,
            c.init_params@ == initialize_params(process_id, None, Some(workspace_uri)),
            c.workspace_folders@ == seq![workspace_uri],
    {
        let init = LSPRequest::Initialize {
            process_id,
            root_path: None,
            root_uri: Some(workspace_uri.clone()),
        };
        let init_params = init.params();
        let mut workspace_folders: Vec<String> = Vec::new();
        workspace_folders.push(workspace_uri);
        LSPClient { descriptors: Vec::new(), sessions: Vec::new(), init_params, workspace_folders }
    }

    /// Adds a server; its session starts on the first call it gets.
    pub fn configure(&mut self, d: ServerDescriptor)
        requires
            old(self).wf(),
        ensures
            final(self).wf(),
            final(self).descriptors@ == old(self).descriptors@.push(d),
            final(self).sessions@.drop_last() == old(self).sessions@,
            final(self).sessions@.last().phase == Phase::Uninitialized,
            final(self).sessions@.last().pending@.len() == 0,
            final(self).init_params == old(self).init_params,
            final(self).workspace_folders == old(self).workspace_folders,
    {
        self.descriptors.push(d);
        let s = Session::new(self.init_params.clone());
        self.sessions.push(s);
        assert(self.sessions@.drop_last() =~= old(self).sessions@);
    }

    fn ends_with_extension(uri: &str, ext: &str) -> (b: bool)
        ensures
            b == has_extension(uri@, ext@),
    {
        let n = uri.unicode_len();
        let e = ext.unicode_len();
        if n <= e {
            return false;
        }
        if uri.get_char(n - e - 1) != '.' {
            return false;
        }
        let mut i: usize = 0;
        while i < e
            invariant
                e == ext@.len(),
                n == uri@.len(),
                n > e,
                i <= e,
                forall|j: int| 0 <= j < i ==> uri@[n - e + j] == ext@[j],
            decreases e - i,
        {
            if uri.get_char(n - e + i) != ext.get_char(i) {
                assert(uri@.subrange(n - e, n as int)[i as int] != ext@[i as int]);
                return false;
            }
            i = i + 1;
        }
        assert(uri@.subrange(n - e, n as int) =~= ext@);
        true
    }

    fn serves_uri(d: &ServerDescriptor, uri: &str) -> (b: bool)
        ensures
            b == serves(*d, uri@),
    {
        let mut j: usize = 0;
        while j < d.extensions.len()
            invariant
                j <= d.extensions@.len(),
                forall|k: int| 0 <= k < j ==> !has_extension(uri@, d.extensions@[k]@),
            decreases d.extensions@.len() - j,
        {
            if Self::ends_with_extension(uri, d.extensions[j].as_str()) {
                return true;
            }
            j = j + 1;
        }
        false
    }

    /// The server that handles `uri`: the first whose extensions include the
    /// URI's.
    pub fn route(&self, uri: &str) -> (r: Option<usize>)
        ensures
            r matches Some(i) ==> routes_to(self.descriptors@, uri@, i as int),
            r is None ==> unrouted(self.descriptors@, uri@),
    {
        let mut i: usize = 0;
        while i < self.descriptors.len()
            invariant
                i <= self.descriptors@.len(),
                forall|j: int| 0 <= j < i ==> !serves(#[trigger] self.descriptors@[j], uri@),
            decreases self.descriptors@.len() - i,
        {
            if Self::serves_uri(&self.descriptors[i], uri) {
                return Some(i);
            }
            i = i + 1;
        }
        None
    }

    fn dispatch(&mut self, uri: &str, method: String, params: String) -> (r: Result<Call, ClientError>)
        requires
            old(self).wf(),
        ensures
            final(self).wf(),
            Self::dispatch_post(*old(self), *final(self), uri@, method@, params@, r),
    {
        match self.route(uri) {
            None => Err(ClientError::UnsupportedLanguage),
            Some(i) => {
                if self.sessions[i].phase == Phase::Terminated {
                    let fresh = Session::new(self.init_params.clone());
                    self.sessions.set(i, fresh);
                }
                let ghost s0 = self.sessions@[i as int];
                let spawn = self.sessions[i].phase == Phase::Uninitialized;
                let ghost ms = method@;
                let ghost ps = params@;
                let mut s = self.sessions.remove(i);
                let rr = s.issue(method, params);
                self.sessions.insert(i, s);
                proof {
                    assert(start_of(old(self).sessions@[i as int], s0));
                    assert(Session::issue_post(s0, self.sessions@[i as int], ms, ps, rr));
                    assert forall|j: int| 0 <= j < self.sessions@.len() implies (#[trigger] self.sessions@[j]).wf()
                        && self.sessions@[j].init_params == self.init_params by {
                        if j != i {
                            assert(self.sessions@[j] == old(self).sessions@[j]);
                        }
                    }
                    assert(forall|j: int| 0 <= j < old(self).sessions@.len() && j != i ==> self.sessions@[j] == old(self).sessions@[j]);
                    let k = routed(old(self).descriptors@, uri@);
                    assert(routes_to(old(self).descriptors@, uri@, k));
                    if k < i {
                        assert(!serves(old(self).descriptors@[k], uri@));
                    } else if k > i {
                        assert(!serves(old(self).descriptors@[i as int], uri@));
                    }
                    assert(!unrouted(old(self).descriptors@, uri@));
                }
                match rr {
                    Ok(id) => Ok(Call { language: i, id, spawn }),
                    Err(CallError::SessionClosed) => Err(ClientError::SessionClosed),
                    Err(CallError::IdsExhausted) => Err(ClientError::IdsExhausted),
                }
            },
        }
    }
    /// Asks for completions at `line`, `col` of the document `uri`.
    pub fn completion(&mut self, uri: &str, line: u32, col: u32) -> (r: Result<Call, ClientError>)
        requires
            old(self).wf(),
        ensures
            final(self).wf(),
            Self::dispatch_post(
                *old(self),
                *final(self),
                uri@,
                "textDocument/completion"@,
                located_params(uri@, Position { line, character: col }),
                r,
            ),
    {
        let req = LSPRequest::Completion {
            text_document: TextDocumentIdentifier { uri: String::from_str(uri) },
            position: Position { line, character: col },
        };
        let method = req.method();
        let params = req.params();
        self.dispatch(uri, method, params)
    }

    /// Asks where the symbol at `line`, `col` of the document `uri` is defined.
    pub fn definition(&mut self, uri: &str, line: u32, col: u32) -> (r: Result<Call, ClientError>)
        requires
            old(self).wf(),
        ensures
            final(self).wf(),
            Self::dispatch_post(
                *old(self),
                *final(self),
                uri@,
                "textDocument/definition"@,
                located_params(uri@, Position { line, character: col }),
                r,
            ),
    {
        let req = LSPRequest::Definition {
            text_document: TextDocumentIdentifier { uri: String::from_str(uri) },
            position: Position { line, character: col },
        };
        let method = req.method();
        let params = req.params();
        self.dispatch(uri, method, params)
    }

    /// Asks for the diagnostics of the document `uri`.
    pub fn diagnostics(&mut self, uri: &str) -> (r: Result<Call, ClientError>)
        requires
            old(self).wf(),
        ensures
            final(self).wf(),
            Self::dispatch_post(
                *old(self),
                *final(self),
                uri@,
                "textDocument/diagnostic"@,
                document_params(uri@),
                r,
            ),
    {
        let req = LSPRequest::Diagnostic {
            text_document: TextDocumentIdentifier { uri: String::from_str(uri) },
        };
        let method = req.method();
        let params = req.params();
        self.dispatch(uri, method, params)
    }

    /// Cancels call `call.id` of language `call.language`; see
    /// `Session::cancel`. An unknown language changes nothing.
    pub fn cancel(&mut self, call: Call) -> (r: Option<Resolution>)
        requires
            old(self).wf(),
        ensures
            final(self).wf(),
            call.language >= old(self).sessions@.len() ==> r is None && *final(self) == *old(self),
            call.language < old(self).sessions@.len() ==> {
                &&& Self::others_unchanged(*old(self), *final(self), call.language as int)
                &&& Session::cancel_outcome(
                    old(self).sessions@[call.language as int],
                    final(self).sessions@[call.language as int],
                    call.id,
                    r,
                )
            },
    {
        let i = call.language;
        if i >= self.sessions.len() {
            return None;
        }
        let mut s = self.sessions.remove(i);
        let r = s.cancel(call.id);
        self.sessions.insert(i, s);
        proof {
            assert(self.sessions@ =~= old(self).sessions@.update(i as int, self.sessions@[i as int]));
            self.lemma_only_changed(*old(self), i as int);
        }
        r
    }

    /// Hands a message read from language `language`'s server to its
    /// session; see `Session::receive`. An unknown language drops it.
    pub fn receive(&mut self, language: usize, m: Message) -> (r: Received)
        requires
            old(self).wf(),
        ensures
            final(self).wf(),
            language >= old(self).sessions@.len() ==> r is Discarded && *final(self) == *old(self),
            language < old(self).sessions@.len() ==> {
                &&& Self::others_unchanged(*old(self), *final(self), language as int)
                &&& Session::receive_post(
                    old(self).sessions@[language as int],
                    final(self).sessions@[language as int],
                    m,
                    r,
                )
            },
    {
        if language >= self.sessions.len() {
            return Received::Discarded;
        }
        let mut s = self.sessions.remove(language);
        let r = s.receive(m);
        self.sessions.insert(language, s);
        proof {
            assert(self.sessions@ =~= old(self).sessions@.update(language as int, self.sessions@[language as int]));
            self.lemma_only_changed(*old(self), language as int);
        }
        r
    }

    /// The server of `language` exited, or its stream broke: every pending
    /// call of that language resolves as `SessionClosed`; see
    /// `Session::terminate`. The next call for the language starts a fresh
    /// session.
    pub fn on_exit(&mut self, language: usize) -> (r: Vec<Resolution>)
        requires
            old(self).wf(),
        ensures
            final(self).wf(),
            language >= old(self).sessions@.len() ==> r@.len() == 0 && *final(self) == *old(self),
            language < old(self).sessions@.len() ==> {
                &&& Self::others_unchanged(*old(self), *final(self), language as int)
                &&& Session::terminate_post(
                    old(self).sessions@[language as int],
                    final(self).sessions@[language as int],
                    r@,
                )
            },
    {
        if language >= self.sessions.len() {
            return Vec::new();
        }
        let mut s = self.sessions.remove(language);
        let r = s.terminate();
        self.sessions.insert(language, s);
        proof {
            assert(self.sessions@ =~= old(self).sessions@.update(language as int, self.sessions@[language as int]));
            self.lemma_only_changed(*old(self), language as int);
        }
        r
    }

    /// Closes the session of `language` at the caller's request; see
    /// `Session::close`. An unknown language changes nothing.
    pub fn close(&mut self, language: usize) -> (r: Vec<Resolution>)
        requires
            old(self).wf(),
        ensures
            final(self).wf(),
            language >= old(self).sessions@.len() ==> r@.len() == 0 && *final(self) == *old(self),
            language < old(self).sessions@.len() ==> {
                &&& Self::others_unchanged(*old(self), *final(self), language as int)
                &&& Session::close_post(
                    old(self).sessions@[language as int],
                    final(self).sessions@[language as int],
                    r@,
                )
            },
    {
        if language >= self.sessions.len() {
            return Vec::new();
        }
        let mut s = self.sessions.remove(language);
        let r = s.close();
        self.sessions.insert(language, s);
        proof {
            assert(self.sessions@ =~= old(self).sessions@.update(language as int, self.sessions@[language as int]));
            self.lemma_only_changed(*old(self), language as int);
        }
        r
    }

    /// The messages to write next to the server of `language`, in order.
    pub fn take_outgoing(&mut self, language: usize) -> (out: Vec<Message>)
        requires
            old(self).wf(),
        ensures
            final(self).wf(),
            language >= old(self).sessions@.len() ==> out@.len() == 0 && *final(self) == *old(self),
            language < old(self).sessions@.len() ==> {
                &&& Self::others_unchanged(*old(self), *final(self), language as int)
                &&& out@ == old(self).sessions@[language as int].outgoing@
                &&& final(self).sessions@[language as int].outgoing@.len() == 0
                &&& final(self).sessions@[language as int].pending
                    == old(self).sessions@[language as int].pending
                &&& final(self).sessions@[language as int].phase
                    == old(self).sessions@[language as int].phase
            },
    {
        if language >= self.sessions.len() {
            return Vec::new();
        }
        let mut s = self.sessions.remove(language);
        let out = s.take_outgoing();
        self.sessions.insert(language, s);
        proof {
            assert(self.sessions@ =~= old(self).sessions@.update(language as int, self.sessions@[language as int]));
            self.lemma_only_changed(*old(self), language as int);
        }
        out
    }

    /// The server of `language` could not be started: its session is
    /// replaced by a fresh one, so that the next call tries again, and the
    /// ids of the calls it held are returned, in order, for their callers to
    /// fail.
    pub fn spawn_failed(&mut self, language: usize) -> (ids: Vec<u64>)
        requires
            old(self).wf(),
        ensures
            final(self).wf(),
            language >= old(self).sessions@.len() ==> ids@.len() == 0 && *final(self) == *old(self),
            language < old(self).sessions@.len() ==> {
                &&& Self::others_unchanged(*old(self), *final(self), language as int)
                &&& ids@ == crate::session::pending_ids(old(self).sessions@[language as int].pending@)
                &&& final(self).sessions@[language as int].phase == Phase::Uninitialized
                &&& final(self).sessions@[language as int].pending@.len() == 0
            },
    {
        if language >= self.sessions.len() {
            return Vec::new();
        }
        let ghost p = self.sessions@[language as int].pending@;
        let mut ids: Vec<u64> = Vec::new();
        let mut k: usize = 0;
        while k < self.sessions[language].pending.len()
            invariant
                language < self.sessions@.len(),
                self.sessions@ == old(self).sessions@,
                p == self.sessions@[language as int].pending@,
                k <= p.len(),
                ids@ == crate::session::pending_ids(p).subrange(0, k as int),
            decreases p.len() - k,
        {
            ids.push(self.sessions[language].pending[k].id);
            assert(crate::session::pending_ids(p).subrange(0, k + 1) =~= ids@);
            k = k + 1;
        }
        assert(crate::session::pending_ids(p).subrange(0, p.len() as int) =~= crate::session::pending_ids(p));
        let fresh = Session::new(self.init_params.clone());
        self.sessions.set(language, fresh);
        proof {
            assert(self.sessions@ =~= old(self).sessions@.update(language as int, self.sessions@[language as int]));
            self.lemma_only_changed(*old(self), language as int);
        }
        ids
    }

    proof fn lemma_only_changed(&self, s: LSPClient, i: int)
        requires
            s.wf(),
            0 <= i < s.sessions@.len(),
            self.descriptors == s.descriptors,
            self.init_params == s.init_params,
            self.workspace_folders == s.workspace_folders,
            self.sessions@ == s.sessions@.update(i, self.sessions@[i]),
            self.sessions@[i].wf(),
            self.sessions@[i].init_params == s.init_params,
        ensures
            self.wf(),
            Self::others_unchanged(s, *self, i),
    {
        assert forall|j: int| 0 <= j < self.sessions@.len() implies (#[trigger] self.sessions@[j]).wf()
            && self.sessions@[j].init_params == self.init_params by {
            if j != i {
                assert(self.sessions@[j] == s.sessions@[j]);
            }
        }
    }
}

/// Sessions of different languages are independent: a call routed to the
/// server at `i` leaves the session of any other language `j` exactly as it
/// was, so a server that never answers holds up no other language.
pub proof fn lemma_languages_independent(
    s: LSPClient,
    t: LSPClient,
    uri: Seq<char>,
    method: Seq<char>,
    params: Seq<char>,
    r: Result<Call, ClientError>,
    i: int,
    j: int,
)
    requires
        s.wf(),
        LSPClient::dispatch_post(s, t, uri, method, params, r),
        routes_to(s.descriptors@, uri, i),
        0 <= j < s.sessions@.len(),
        j != i,
    ensures
        t.sessions@[j] == s.sessions@[j],
{
    let ds = s.descriptors@;
    let k = routed(ds, uri);
    assert(routes_to(ds, uri, k));
    if k < i {
        assert(!serves(ds[k], uri));
    } else if k > i {
        assert(!serves(ds[i], uri));
    }
    assert(!unrouted(ds, uri));
}

} // verus!
