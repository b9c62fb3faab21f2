use crate::framing::{frame_message, framed};
use vstd::prelude::*;

verus! {

/// What callers see of a managed process: its handle, kind, command and arguments.
pub struct ProcessInfoView {
    pub connection_id: Seq<char>,
    pub process_type: Seq<char>,
    pub command: Seq<char>,
    pub args: Seq<Seq<char>>,
}

/// The immutable descriptor of a managed process.
#[derive(Clone, Debug)]
pub struct ProcessInfo {
    pub connection_id: String,
    pub process_type: String,
    pub command: String,
    pub args: Vec<String>,
}

/// The texts of a list of strings.
pub open spec fn strings_view(v: Seq<String>) -> Seq<Seq<char>> {
    v.map_values(|s: String| s@)
}

impl View for ProcessInfo {
    type V = ProcessInfoView;

    open spec fn view(&self) -> ProcessInfoView {
        ProcessInfoView {
            connection_id: self.connection_id@,
            process_type: self.process_type@,
            command: self.command@,
            args: strings_view(self.args@),
        }
    }
}

/// Copies a list of strings, keeping each one and the order.
pub fn copy_strings(v: &Vec<String>) -> (r: Vec<String>)
    ensures
        strings_view(r@) == strings_view(v@),
{
    let mut r: Vec<String> = Vec::new();
    let mut i: usize = 0;
    while i < v.len()
        invariant
            0 <= i <= v.len(),
            r.len() == i,
            forall|k: int| 0 <= k < i ==> #[trigger] r@[k]@ == v@[k]@,
        decreases v.len() - i,
    {
        r.push(v[i].clone());
        i += 1;
    }
    assert(strings_view(r@) =~= strings_view(v@));
    r
}

impl ProcessInfo {
    /// A copy of the descriptor.
    pub fn snapshot(&self) -> (r: ProcessInfo)
        ensures
            r@ == self@,
    {
        ProcessInfo {
            connection_id: self.connection_id.clone(),
            process_type: self.process_type.clone(),
            command: self.command.clone(),
            args: copy_strings(&self.args),
        }
    }
}

/// The two kinds of process the registry launches.
#[derive(Clone, Copy, Debug, PartialEq, Eq)]
pub enum ProcessKind {
    McpServer,
    CliAgent,
}

impl ProcessKind {
    /// The kind as text.
    pub open spec fn label(self) -> Seq<char> {
        match self {
            ProcessKind::McpServer => "mcp-server"@,
            ProcessKind::CliAgent => "cli-agent"@,
        }
    }

    /// The kind as it is recorded in a descriptor.
    pub fn name(&self) -> (r: String)
        ensures
            r@ == self.label(),
    {
        match self {
            ProcessKind::McpServer => String::from_str("mcp-server"),
            ProcessKind::CliAgent => String::from_str("cli-agent"),
        }
    }
}

/// Failures of the registry's operations.
#[derive(Clone, Debug, PartialEq, Eq)]
pub enum ProcessError {
    /// No live process has this handle.
    NotFound(String),
    /// The process could not be started or its pipes captured.
    LaunchFailure(String),
    /// Writing to or reading from a live process failed.
    IoFailure(String),
    /// The process closed its output: no line will come.
    StreamClosed,
    /// The process could not be terminated.
    TerminationFailure(String),
}

impl ProcessError {
    /// The error as text for the caller: the not-found message names the handle.
    pub fn message(&self) -> (r: String)
        ensures
            match self {
                ProcessError::NotFound(h) => r@ == "Process with ID '"@ + h@ + "' not found"@,
                ProcessError::StreamClosed => r@ == "Process output closed"@,
                ProcessError::LaunchFailure(m) => r@ == m@,
                ProcessError::IoFailure(m) => r@ == m@,
                ProcessError::TerminationFailure(m) => r@ == m@,
            },
    {
        match self {
            ProcessError::NotFound(h) => {
                let mut r = String::from_str("Process with ID '");
                r.append(h.as_str());
                r.append("' not found");
                r
            },
            ProcessError::StreamClosed => String::from_str("Process output closed"),
            ProcessError::LaunchFailure(m) => m.clone(),
            ProcessError::IoFailure(m) => m.clone(),
            ProcessError::TerminationFailure(m) => m.clone(),
        }
    }
}

/// A table entry: the descriptor and the process's own resources (process handle and pipes).
pub struct ManagedProcess<R> {
    pub info: ProcessInfo,
    pub io: R,
}

/// The table as a value: the live entries by handle, and every handle ever minted.
pub struct TableModel<R> {
    pub live: Map<Seq<char>, (ProcessInfoView, R)>,
    pub issued: Set<Seq<char>>,
}

/// Every live handle was minted by this table, and each entry is filed under its own handle.
pub open spec fn model_wf<R>(t: TableModel<R>) -> bool {
    forall|h: Seq<char>| #[trigger]
        t.live.contains_key(h) ==> t.issued.contains(h) && t.live[h].0.connection_id == h
}

/// `t1` is `t0` with a new entry `e` under the never minted handle `h`.
pub open spec fn spawned<R>(
    t0: TableModel<R>,
    t1: TableModel<R>,
    h: Seq<char>,
    e: (ProcessInfoView, R),
) -> bool {
    &&& !t0.issued.contains(h)
    &&& e.0.connection_id == h
    &&& t1.live == t0.live.insert(h, e)
    &&& t1.issued == t0.issued.insert(h)
}

/// `t1` is `t0` without the live entry under `h`.
pub open spec fn killed<R>(t0: TableModel<R>, t1: TableModel<R>, h: Seq<char>) -> bool {
    &&& t0.live.contains_key(h)
    &&& t1.live == t0.live.remove(h)
    &&& t1.issued == t0.issued
}

/// The effect of any one operation on the table.
pub open spec fn step<R>(t0: TableModel<R>, t1: TableModel<R>) -> bool {
    ||| t1 == t0
    ||| exists|h: Seq<char>| killed(t0, t1, h)
    ||| exists|h: Seq<char>, e: (ProcessInfoView, R)| spawned(t0, t1, h, e)
}

/// `infos` lists each live entry's descriptor exactly once.
pub open spec fn lists_exactly<R>(
    infos: Seq<ProcessInfoView>,
    live: Map<Seq<char>, (ProcessInfoView, R)>,
) -> bool {
    &&& forall|i: int|
        0 <= i < infos.len() ==> live.contains_key(#[trigger] infos[i].connection_id)
            && live[infos[i].connection_id].0 == infos[i]
    &&& forall|h: Seq<char>|
        #[trigger] live.contains_key(h) ==> exists|i: int|
            0 <= i < infos.len() && #[trigger] infos[i].connection_id == h
    &&& forall|i: int, j: int|
        0 <= i < j < infos.len() ==> infos[i].connection_id != infos[j].connection_id
}

/// The descriptors of a list of process infos.
pub open spec fn info_views(v: Seq<ProcessInfo>) -> Seq<ProcessInfoView> {
    v.map_values(|p: ProcessInfo| p@)
}

/// How many random handles a spawn draws before it lengthens the last one.
pub const MINT_ATTEMPTS: u32 = 4;

/// A lower-case hexadecimal digit.
pub open spec fn is_lower_hex(c: char) -> bool {
    ('0' <= c && c <= '9') || ('a' <= c && c <= 'f')
}

/// The hyphenated lower-case text of a version-4 UUID: 8-4-4-4-12 hexadecimal digits, the
/// version digit `4`, and a variant digit among `8`, `9`, `a`, `b`.
pub open spec fn uuid_v4_text(s: Seq<char>) -> bool {
    &&& s.len() == 36
    &&& forall|i: int|
        0 <= i < 36 ==> if i == 8 || i == 13 || i == 18 || i == 23 {
            s[i] == '-'
        } else {
            is_lower_hex(#[trigger] s[i])
        }
    &&& s[14] == '4'
    &&& s[19] == '8' || s[19] == '9' || s[19] == 'a' || s[19] == 'b'
}

/// Relies on uuid::Uuid::new_v4 and the Display impl of Uuid: a random version-4 UUID
/// (version and variant bits set by new_v4), written in the hyphenated lower-case form.
#[verifier::external_body]
fn new_connection_id() -> (r: String)
    ensures
        uuid_v4_text(r@),
{
    uuid::Uuid::new_v4().to_string()
}

/// The registry of managed processes, keyed by connection handle.
pub struct ProcessTable<R> {
    entries: Vec<ManagedProcess<R>>,
    issued: Vec<String>,
    model: Ghost<TableModel<R>>,
}

impl<R> View for ProcessTable<R> {
    type V = TableModel<R>;

    closed spec fn view(&self) -> TableModel<R> {
        self.model@
    }
}

impl<R> ProcessTable<R> {
    spec fn entry_id(&self, i: int) -> Seq<char> {
        self.entries@[i].info.connection_id@
    }

    spec fn issued_at(&self, j: int) -> Seq<char> {
        self.issued@[j]@
    }

    /// The entries are filed under distinct handles, agree with the model, and every minted
    /// handle is remembered.
    pub closed spec fn wf(&self) -> bool {
        &&& forall|i: int|
            0 <= i < self.entries.len() ==> self.model@.live.contains_key(
                #[trigger] self.entry_id(i),
            ) && self.model@.live[self.entry_id(i)] == (
                self.entries@[i].info@,
                self.entries@[i].io,
            )
        &&& forall|h: Seq<char>|
            #[trigger] self.model@.live.contains_key(h) ==> exists|i: int|
                0 <= i < self.entries.len() && #[trigger] self.entry_id(i) == h
        &&& forall|i: int, j: int|
            0 <= i < j < self.entries.len() ==> self.entry_id(i) != self.entry_id(j)
        &&& forall|h: Seq<char>|
            #[trigger] self.model@.issued.contains(h) <==> exists|j: int|
                0 <= j < self.issued.len() && #[trigger] self.issued_at(j) == h
        &&& model_wf(self.model@)
    }

    /// A well-formed table's model is well formed.
    pub proof fn lemma_wf(&self)
        requires
            self.wf(),
        ensures
            model_wf(self@),
    {
    }

    /// An empty table.
    pub fn new() -> (r: Self)
        ensures
            r.wf(),
            r@.live.is_empty(),
            r@.issued.is_empty(),
    {
        ProcessTable {
            entries: Vec::new(),
            issued: Vec::new(),
            model: Ghost(TableModel { live: Map::empty(), issued: Set::empty() }),
        }
    }

    fn position(&self, h: &String) -> (r: Option<usize>)
        requires
            self.wf(),
        ensures
            match r {
                Some(i) => i < self.entries.len() && self.entry_id(i as int) == h@,
                None => !self@.live.contains_key(h@),
            },
    {
        let mut i: usize = 0;
        while i < self.entries.len()
            invariant
                0 <= i <= self.entries.len(),
                self.wf(),
                forall|k: int| 0 <= k < i ==> self.entry_id(k) != h@,
            decreases self.entries.len() - i,
        {
            if self.entries[i].info.connection_id == *h {
                return Some(i);
            }
            i += 1;
        }
        None
    }

    /// Whether the handle was ever minted by this table.
    pub fn was_issued(&self, h: &String) -> (r: bool)
        requires
            self.wf(),
        ensures
            r == self@.issued.contains(h@),
    {
        let mut j: usize = 0;
        while j < self.issued.len()
            invariant
                0 <= j <= self.issued.len(),
                self.wf(),
                forall|k: int| 0 <= k < j ==> self.issued_at(k) != h@,
            decreases self.issued.len() - j,
        {
            if self.issued[j] == *h {
                assert(self.issued_at(j as int) == h@);
                return true;
            }
            j += 1;
        }
        false
    }

    /// The length of the longest handle minted here.
    fn longest_issued(&self) -> (r: usize)
        requires
            self.wf(),
        ensures
            forall|h: Seq<char>| #[trigger] self@.issued.contains(h) ==> h.len() <= r,
    {
        let mut m: usize = 0;
        let mut j: usize = 0;
        while j < self.issued.len()
            invariant
                0 <= j <= self.issued.len(),
                self.wf(),
                forall|k: int| 0 <= k < j ==> #[trigger] self.issued_at(k).len() <= m,
            decreases self.issued.len() - j,
        {
            let n = self.issued[j].as_str().unicode_len();
            if n > m {
                m = n;
            }
            j += 1;
        }
        proof {
            assert forall|h: Seq<char>| #[trigger] self@.issued.contains(h) implies h.len() <= m by {
                let k = choose|k: int| 0 <= k < self.issued.len() && #[trigger] self.issued_at(k) == h;
                assert(self.issued_at(k).len() <= m);
            }
        }
        m
    }

    /// A handle never minted here: a random one, drawn up to `MINT_ATTEMPTS` times; should
    /// every draw hit a minted handle, the last draw lengthened past every minted handle.
    fn fresh_handle(&self) -> (r: String)
        requires
            self.wf(),
        ensures
            !self@.issued.contains(r@),
            r@.len() >= 36,
            self@.issued.is_empty() ==> uuid_v4_text(r@),
    {
        let mut h = new_connection_id();
        let mut attempt: u32 = 1;
        while attempt < MINT_ATTEMPTS
            invariant
                self.wf(),
                uuid_v4_text(h@),
                1 <= attempt <= MINT_ATTEMPTS,
                self@.issued.is_empty() ==> attempt == 1,
            decreases MINT_ATTEMPTS - attempt,
        {
            if !self.was_issued(&h) {
                return h;
            }
            h = new_connection_id();
            attempt += 1;
        }
        if !self.was_issued(&h) {
            return h;
        }
        let m = self.longest_issued();
        let mut n = h.as_str().unicode_len();
        while n <= m
            invariant
                n == h@.len(),
                n <= m + 1,
                h@.len() >= 36,
            decreases m + 1 - n,
        {
            proof {
                reveal_strlit("-");
            }
            h.append("-");
            n = h.as_str().unicode_len();
        }
        h
    }
}


/// An empty process table.
pub fn create_process_map<R>() -> (r: ProcessTable<R>)
    ensures
        r.wf(),
        r@.live.is_empty(),
        r@.issued.is_empty(),
{
    ProcessTable::new()
}

/// Files a launched process under a freshly minted handle and returns the handle.
///
/// `launched` is the outcome of starting the process and capturing its pipes. The spawn
/// fails exactly when the launch did, and then leaves the table as it was. The handle is a
/// random version-4 UUID; only should every draw hit a handle minted before is it a longer
/// text instead.
pub fn spawn_process<R>(
    process_type: ProcessKind,
    command: String,
    args: Vec<String>,
    launched: Result<R, String>,
    state: &mut ProcessTable<R>,
) -> (r: Result<String, ProcessError>)
    requires
        old(state).wf(),
    ensures
        final(state).wf(),
        step(old(state)@, final(state)@),
        launched is Err ==> r == Err::<String, ProcessError>(
            ProcessError::LaunchFailure(launched->Err_0),
        ),
        launched is Ok <==> r is Ok,
        r is Err ==> final(state)@ == old(state)@,
        r is Ok ==> r->Ok_0@.len() >= 36,
        r is Ok && old(state)@.issued.is_empty() ==> uuid_v4_text(r->Ok_0@),
        r is Ok ==> spawned(
            old(state)@,
            final(state)@,
            r->Ok_0@,
            (
                ProcessInfoView {
                    connection_id: r->Ok_0@,
                    process_type: process_type.label(),
                    command: command@,
                    args: strings_view(args@),
                },
                launched->Ok_0,
            ),
        ),
{
    let io = match launched {
        Err(msg) => {
            return Err(ProcessError::LaunchFailure(msg));
        },
        Ok(io) => io,
    };
    let h = state.fresh_handle();
    let info = ProcessInfo {
        connection_id: h.clone(),
        process_type: process_type.name(),
        command,
        args,
    };
    let ghost t0 = state@;
    let ghost e = (info@, io);
    let ghost n = state.entries.len() as int;
    let ghost m = state.issued.len() as int;
    state.entries.push(ManagedProcess { info, io });
    state.issued.push(h.clone());
    state.model = Ghost(TableModel { live: t0.live.insert(h@, e), issued: t0.issued.insert(h@) });
    proof {
        assert(state.entry_id(n) == h@);
        assert(state.issued_at(m) == h@);
        assert forall|h2: Seq<char>| #[trigger] state.model@.live.contains_key(h2) implies exists|i: int|
            0 <= i < state.entries.len() && #[trigger] state.entry_id(i) == h2 by {
            if h2 != h@ {
                let i = choose|i: int| 0 <= i < old(state).entries.len() && #[trigger] old(state).entry_id(i) == h2;
                assert(state.entry_id(i) == h2);
            }
        }
        assert forall|h2: Seq<char>| #[trigger] state.model@.issued.contains(h2) <==> exists|j: int|
            0 <= j < state.issued.len() && #[trigger] state.issued_at(j) == h2 by {
            if h2 != h@ && old(state).model@.issued.contains(h2) {
                let j = choose|j: int| 0 <= j < old(state).issued.len() && #[trigger] old(state).issued_at(j) == h2;
                assert(state.issued_at(j) == h2);
            }
            if exists|j: int| 0 <= j < state.issued.len() && #[trigger] state.issued_at(j) == h2 {
                let j = choose|j: int| 0 <= j < state.issued.len() && #[trigger] state.issued_at(j) == h2;
                if j < m {
                    assert(old(state).issued_at(j) == h2);
                }
            }
        }
        assert forall|i: int, j: int| 0 <= i < j < state.entries.len() implies state.entry_id(i) != state.entry_id(j) by {
            assert(state.entry_id(i) == old(state).entry_id(i));
            if j == n {
                assert(old(state).model@.live.contains_key(old(state).entry_id(i)));
                assert(old(state).model@.issued.contains(old(state).entry_id(i)));
            } else {
                assert(state.entry_id(j) == old(state).entry_id(j));
            }
        }
        assert forall|i: int| 0 <= i < state.entries.len() implies state.model@.live.contains_key(
            #[trigger] state.entry_id(i),
        ) && state.model@.live[state.entry_id(i)] == (state.entries@[i].info@, state.entries@[i].io) by {
            if i < n {
                assert(state.entry_id(i) == old(state).entry_id(i));
                assert(old(state).model@.issued.contains(old(state).entry_id(i)));
            }
        }
        assert(spawned(t0, state@, h@, e));
    }
    Ok(h)
}

/// Starts tracking a launched MCP server.
pub fn spawn_mcp_server<R>(
    command: String,
    args: Vec<String>,
    launched: Result<R, String>,
    state: &mut ProcessTable<R>,
) -> (r: Result<String, ProcessError>)
    requires
        old(state).wf(),
    ensures
        final(state).wf(),
        step(old(state)@, final(state)@),
        launched is Err ==> r == Err::<String, ProcessError>(
            ProcessError::LaunchFailure(launched->Err_0),
        ),
        launched is Ok <==> r is Ok,
        r is Err ==> final(state)@ == old(state)@,
        r is Ok ==> r->Ok_0@.len() >= 36,
        r is Ok && old(state)@.issued.is_empty() ==> uuid_v4_text(r->Ok_0@),
        r is Ok ==> spawned(
            old(state)@,
            final(state)@,
            r->Ok_0@,
            (
                ProcessInfoView {
                    connection_id: r->Ok_0@,
                    process_type: ProcessKind::McpServer.label(),
                    command: command@,
                    args: strings_view(args@),
                },
                launched->Ok_0,
            ),
        ),
{
    spawn_process(ProcessKind::McpServer, command, args, launched, state)
}

/// Starts tracking a launched command-line agent.
pub fn spawn_cli_agent<R>(
    tool: String,
    args: Vec<String>,
    launched: Result<R, String>,
    state: &mut ProcessTable<R>,
) -> (r: Result<String, ProcessError>)
    requires
        old(state).wf(),
    ensures
        final(state).wf(),
        step(old(state)@, final(state)@),
        launched is Err ==> r == Err::<String, ProcessError>(
            ProcessError::LaunchFailure(launched->Err_0),
        ),
        launched is Ok <==> r is Ok,
        r is Err ==> final(state)@ == old(state)@,
        r is Ok ==> r->Ok_0@.len() >= 36,
        r is Ok && old(state)@.issued.is_empty() ==> uuid_v4_text(r->Ok_0@),
        r is Ok ==> spawned(
            old(state)@,
            final(state)@,
            r->Ok_0@,
            (
                ProcessInfoView {
                    connection_id: r->Ok_0@,
                    process_type: ProcessKind::CliAgent.label(),
                    command: tool@,
                    args: strings_view(args@),
                },
                launched->Ok_0,
            ),
        ),
{
    spawn_process(ProcessKind::CliAgent, tool, args, launched, state)
}


/// `e` is the not-found error for handle `h`.
pub open spec fn not_found(e: ProcessError, h: Seq<char>) -> bool {
    e is NotFound && e->NotFound_0@ == h
}

impl<R> ProcessTable<R> {
    fn connection<'a>(&'a self, h: &String) -> (r: Result<&'a R, ProcessError>)
        requires
            self.wf(),
        ensures
            self@.live.contains_key(h@) <==> r is Ok,
            r is Ok ==> *r->Ok_0 == self@.live[h@].1,
            r is Err ==> not_found(r->Err_0, h@),
    {
        match self.position(h) {
            Some(i) => Ok(&self.entries[i].io),
            None => Err(ProcessError::NotFound(h.clone())),
        }
    }
}

/// Picks the pipes of the process to write to, and the bytes to write: the message and
/// one newline. Fails with not-found when no live process has the handle.
pub fn send_mcp_message<'a, R>(
    connection_id: &String,
    message: &String,
    state: &'a ProcessTable<R>,
) -> (r: Result<(&'a R, String), ProcessError>)
    requires
        state.wf(),
    ensures
        state@.live.contains_key(connection_id@) <==> r is Ok,
        r is Ok ==> *r->Ok_0.0 == state@.live[connection_id@].1 && r->Ok_0.1@ == framed(
            message@,
        ),
        r is Err ==> not_found(r->Err_0, connection_id@),
{
    let io = state.connection(connection_id)?;
    Ok((io, frame_message(message)))
}

/// Picks the pipes of the process to read a line from. Fails with not-found when no live
/// process has the handle.
pub fn read_mcp_response<'a, R>(connection_id: &String, state: &'a ProcessTable<R>) -> (r: Result<
    &'a R,
    ProcessError,
>)
    requires
        state.wf(),
    ensures
        state@.live.contains_key(connection_id@) <==> r is Ok,
        r is Ok ==> *r->Ok_0 == state@.live[connection_id@].1,
        r is Err ==> not_found(r->Err_0, connection_id@),
{
    state.connection(connection_id)
}

/// Interprets a line read: `read` is the number of bytes the reader took, or its error, and
/// `line` what it read. No bytes means the process closed its output.
pub fn received_line(read: Result<usize, String>, line: String) -> (r: Result<String, ProcessError>)
    ensures
        read is Err ==> r == Err::<String, ProcessError>(ProcessError::IoFailure(read->Err_0)),
        read == Ok::<usize, String>(0) ==> r == Err::<String, ProcessError>(ProcessError::StreamClosed),
        read is Ok && read->Ok_0 > 0 ==> r == Ok::<String, ProcessError>(line),
{
    match read {
        Err(msg) => Err(ProcessError::IoFailure(msg)),
        Ok(n) => {
            if n == 0 {
                Err(ProcessError::StreamClosed)
            } else {
                Ok(line)
            }
        },
    }
}

/// Takes the process with this handle out of the table, so that nothing reaches it through
/// the table again, and hands it back to be terminated. Fails with not-found, leaving the
/// table as it was, when no live process has the handle.
pub fn kill_process<R>(connection_id: &String, state: &mut ProcessTable<R>) -> (r: Result<
    ManagedProcess<R>,
    ProcessError,
>)
    requires
        old(state).wf(),
    ensures
        final(state).wf(),
        step(old(state)@, final(state)@),
        old(state)@.live.contains_key(connection_id@) <==> r is Ok,
        r is Ok ==> killed(old(state)@, final(state)@, connection_id@) && (
        r->Ok_0.info@, r->Ok_0.io) == old(state)@.live[connection_id@],
        r is Err ==> not_found(r->Err_0, connection_id@) && final(state)@ == old(state)@,
{
    let i = match state.position(connection_id) {
        Some(i) => i,
        None => {
            return Err(ProcessError::NotFound(connection_id.clone()));
        },
    };
    let ghost t0 = state@;
    let ghost h = connection_id@;
    let ghost old_entries = state.entries@;
    let p = state.entries.remove(i);
    state.model = Ghost(TableModel { live: t0.live.remove(h), issued: t0.issued });
    proof {
        assert(old(state).model@.live.contains_key(old(state).entry_id(i as int)));
        assert forall|k: int| 0 <= k < state.entries.len() implies state.entry_id(k) == (if k < i {
            old(state).entry_id(k)
        } else {
            old(state).entry_id(k + 1)
        }) by {}
        assert forall|k: int| 0 <= k < state.entries.len() implies state.model@.live.contains_key(
            #[trigger] state.entry_id(k),
        ) && state.model@.live[state.entry_id(k)] == (state.entries@[k].info@, state.entries@[k].io) by {
            let k0 = if k < i { k } else { k + 1 };
            assert(state.entry_id(k) == old(state).entry_id(k0));
            assert(old(state).entry_id(k0) != old(state).entry_id(i as int));
        }
        assert forall|h2: Seq<char>| #[trigger] state.model@.live.contains_key(h2) implies exists|k: int|
            0 <= k < state.entries.len() && #[trigger] state.entry_id(k) == h2 by {
            let k0 = choose|k0: int| 0 <= k0 < old(state).entries.len() && #[trigger] old(state).entry_id(k0) == h2;
            if k0 < i {
                assert(state.entry_id(k0) == h2);
            } else {
                assert(state.entry_id(k0 - 1) == h2);
            }
        }
        assert forall|a: int, b: int| 0 <= a < b < state.entries.len() implies state.entry_id(a) != state.entry_id(b) by {
            let a0 = if a < i { a } else { a + 1 };
            let b0 = if b < i { b } else { b + 1 };
            assert(state.entry_id(a) == old(state).entry_id(a0));
            assert(state.entry_id(b) == old(state).entry_id(b0));
        }
        assert forall|h2: Seq<char>| #[trigger] state.model@.issued.contains(h2) <==> exists|j: int|
            0 <= j < state.issued.len() && #[trigger] state.issued_at(j) == h2 by {
            if old(state).model@.issued.contains(h2) {
                let j = choose|j: int| 0 <= j < old(state).issued.len() && #[trigger] old(state).issued_at(j) == h2;
                assert(state.issued_at(j) == h2);
            }
            if exists|j: int| 0 <= j < state.issued.len() && #[trigger] state.issued_at(j) == h2 {
                let j = choose|j: int| 0 <= j < state.issued.len() && #[trigger] state.issued_at(j) == h2;
                assert(old(state).issued_at(j) == h2);
            }
        }
        assert(killed(t0, state@, h));
    }
    Ok(p)
}

/// The descriptors of all live processes, each once.
pub fn list_processes<R>(state: &ProcessTable<R>) -> (r: Vec<ProcessInfo>)
    requires
        state.wf(),
    ensures
        lists_exactly(info_views(r@), state@.live),
{
    let mut r: Vec<ProcessInfo> = Vec::new();
    let mut i: usize = 0;
    while i < state.entries.len()
        invariant
            0 <= i <= state.entries.len(),
            state.wf(),
            r.len() == i,
            forall|k: int| 0 <= k < i ==> #[trigger] r@[k]@ == state.entries@[k].info@,
        decreases state.entries.len() - i,
    {
        r.push(state.entries[i].info.snapshot());
        i += 1;
    }
    proof {
        let v = info_views(r@);
        assert forall|k: int| 0 <= k < v.len() implies v[k].connection_id == state.entry_id(k) by {}
        assert forall|h: Seq<char>| #[trigger] state@.live.contains_key(h) implies exists|k: int|
            0 <= k < v.len() && #[trigger] v[k].connection_id == h by {
            let k = choose|k: int| 0 <= k < state.entries.len() && #[trigger] state.entry_id(k) == h;
            assert(v[k].connection_id == h);
        }
        assert forall|k: int| 0 <= k < v.len() implies state@.live.contains_key(
            #[trigger] v[k].connection_id,
        ) && state@.live[v[k].connection_id].0 == v[k] by {
            assert(v[k].connection_id == state.entry_id(k));
        }
        assert forall|a: int, b: int| 0 <= a < b < v.len() implies v[a].connection_id != v[b].connection_id by {
            assert(v[a].connection_id == state.entry_id(a));
            assert(v[b].connection_id == state.entry_id(b));
        }
    }
    r
}

/// The descriptor of the live process with this handle; not-found when there is none.
pub fn get_process_info<R>(connection_id: &String, state: &ProcessTable<R>) -> (r: Result<
    ProcessInfo,
    ProcessError,
>)
    requires
        state.wf(),
    ensures
        state@.live.contains_key(connection_id@) <==> r is Ok,
        r is Ok ==> r->Ok_0@ == state@.live[connection_id@].0,
        r is Err ==> not_found(r->Err_0, connection_id@),
{
    match state.position(connection_id) {
        Some(i) => Ok(state.entries[i].info.snapshot()),
        None => Err(ProcessError::NotFound(connection_id.clone())),
    }
}


/// Each state of `run` follows from the one before by one operation.
pub open spec fn is_run<R>(run: Seq<TableModel<R>>) -> bool {
    forall|k: int| 0 <= k < run.len() - 1 ==> step(#[trigger] run[k], run[k + 1])
}

proof fn lemma_issued_grows<R>(run: Seq<TableModel<R>>, a: int, b: int)
    requires
        is_run(run),
        0 <= a <= b < run.len(),
    ensures
        run[a].issued.subset_of(run[b].issued),
    decreases b - a,
{
    if a < b {
        lemma_issued_grows(run, a, b - 1);
        assert(step(run[b - 1], run[b]));
    }
}

/// Handles returned by two spawns of one run differ.
pub proof fn lemma_spawned_handles_distinct<R>(
    run: Seq<TableModel<R>>,
    i: int,
    j: int,
    hi: Seq<char>,
    ei: (ProcessInfoView, R),
    hj: Seq<char>,
    ej: (ProcessInfoView, R),
)
    requires
        is_run(run),
        0 <= i < j,
        j + 1 < run.len(),
        spawned(run[i], run[i + 1], hi, ei),
        spawned(run[j], run[j + 1], hj, ej),
    ensures
        hi != hj,
{
    lemma_issued_grows(run, i + 1, j);
}

/// Once a handle is minted and not live, no later operation of the run makes it live again:
/// so after a successful kill, and for a handle never minted, every lookup by it fails with
/// not-found.
pub proof fn lemma_not_found_closure<R>(run: Seq<TableModel<R>>, i: int, j: int, h: Seq<char>)
    requires
        is_run(run),
        model_wf(run[0]),
        0 <= i <= j < run.len(),
        run[i].issued.contains(h) && !run[i].live.contains_key(h) || !run[j].issued.contains(h),
    ensures
        !run[j].live.contains_key(h),
    decreases j - i,
{
    if !run[j].issued.contains(h) {
        lemma_model_wf_kept(run, j);
    } else if i < j {
        lemma_not_found_closure(run, i, j - 1, h);
        lemma_issued_grows(run, i, j - 1);
        assert(step(run[j - 1], run[j]));
    }
}

proof fn lemma_model_wf_kept<R>(run: Seq<TableModel<R>>, j: int)
    requires
        is_run(run),
        model_wf(run[0]),
        0 <= j < run.len(),
    ensures
        model_wf(run[j]),
    decreases j,
{
    if j > 0 {
        lemma_model_wf_kept(run, j - 1);
        assert(step(run[j - 1], run[j]));
    }
}

/// An operation on one handle leaves the entry, and with it the pipes, of every other live
/// handle as it was.
pub proof fn lemma_isolation<R>(t0: TableModel<R>, t1: TableModel<R>, a: Seq<char>, b: Seq<char>)
    requires
        model_wf(t0),
        t0.live.contains_key(a),
        a != b,
        t1 == t0 || killed(t0, t1, b) || exists|e: (ProcessInfoView, R)| spawned(t0, t1, b, e),
    ensures
        t1.live.contains_key(a),
        t1.live[a] == t0.live[a],
{
}

/// Right after a spawn the listing holds the new handle; right after a kill it does not.
pub proof fn lemma_list_consistency<R>(
    t0: TableModel<R>,
    t1: TableModel<R>,
    h: Seq<char>,
    listed: Seq<ProcessInfoView>,
)
    requires
        lists_exactly(listed, t1.live),
        exists|e: (ProcessInfoView, R)| spawned(t0, t1, h, e) || killed(t0, t1, h),
    ensures
        killed(t0, t1, h) ==> forall|k: int| 0 <= k < listed.len() ==> listed[k].connection_id != h,
        !killed(t0, t1, h) ==> exists|k: int| 0 <= k < listed.len() && listed[k].connection_id == h,
{
    let e = choose|e: (ProcessInfoView, R)| spawned(t0, t1, h, e) || killed(t0, t1, h);
    if !killed(t0, t1, h) {
        assert(t1.live.contains_key(h));
    } else {
        assert forall|k: int| 0 <= k < listed.len() implies listed[k].connection_id != h by {
            assert(t1.live.contains_key(listed[k].connection_id));
        }
    }
}

/// After a successful kill the handle is no longer live, so a second kill of it fails with
/// not-found and hands back no process to terminate.
pub proof fn lemma_kill_twice<R>(t0: TableModel<R>, t1: TableModel<R>, h: Seq<char>)
    requires
        killed(t0, t1, h),
    ensures
        !t1.live.contains_key(h),
{
}

} // verus!
