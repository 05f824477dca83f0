//! Docker exec sessions: the request that creates one, the record the daemon
//! keeps, and the capped store of records that forgets the oldest session
//! once it holds `MAX_EXEC_ENTRIES`.
use vstd::prelude::*;
use crate::containerd::ExecProcessSpec;
use crate::containers;
use crate::error::{DockerApiError, is_bad_request};
use crate::keyed::KeyedVec;
use crate::stream;
use crate::text;

verus! {

/// The most exec sessions the store keeps.
pub const MAX_EXEC_ENTRIES: usize = 1000;

/// The body of `POST /containers/<id>/exec`.
#[derive(Clone, Debug)]
pub struct ExecCreateBody {
    pub cmd: Vec<String>,
    pub attach_stdin: bool,
    pub attach_stdout: bool,
    pub attach_stderr: bool,
    pub tty: bool,
    pub env: Option<Vec<String>>,
}

/// An exec session as the daemon records it.
#[derive(Debug)]
pub struct ExecSpec {
    pub id: String,
    pub container_id: String,
    pub cmd: Vec<String>,
    pub env: Vec<String>,
    pub attach_stdin: bool,
    pub attach_stdout: bool,
    pub attach_stderr: bool,
    pub tty: bool,
    pub running: bool,
    pub exit_code: Option<i64>,
}

/// A copy of the strings of `v`.
pub fn clone_strings(v: &Vec<String>) -> (r: Vec<String>)
    ensures
        r@ == v@,
{
    let mut r: Vec<String> = Vec::new();
    let mut i: usize = 0;
    while i < v.len()
        invariant
            i <= v@.len(),
            r@ == v@.subrange(0, i as int),
        decreases v@.len() - i,
    {
        r.push(v[i].clone());
        i += 1;
        assert(r@ =~= v@.subrange(0, i as int));
    }
    assert(v@.subrange(0, i as int) =~= v@);
    r
}

impl ExecSpec {
    /// Whether two records hold the same session data.
    pub open spec fn same_as(self, other: ExecSpec) -> bool {
        &&& self.id@ == other.id@
        &&& self.container_id@ == other.container_id@
        &&& self.cmd@ == other.cmd@
        &&& self.env@ == other.env@
        &&& self.attach_stdin == other.attach_stdin
        &&& self.attach_stdout == other.attach_stdout
        &&& self.attach_stderr == other.attach_stderr
        &&& self.tty == other.tty
        &&& self.running == other.running
        &&& self.exit_code == other.exit_code
    }

    /// A copy of the record.
    pub fn duplicate(&self) -> (r: ExecSpec)
        ensures
            r.same_as(*self),
    {
        ExecSpec {
            id: self.id.clone(),
            container_id: self.container_id.clone(),
            cmd: clone_strings(&self.cmd),
            env: clone_strings(&self.env),
            attach_stdin: self.attach_stdin,
            attach_stdout: self.attach_stdout,
            attach_stderr: self.attach_stderr,
            tty: self.tty,
            running: self.running,
            exit_code: self.exit_code,
        }
    }

    /// The record marked as running, as `POST /exec/<id>/start` stores it.
    pub fn started(&self) -> (r: ExecSpec)
        ensures
            r.running,
            r.id@ == self.id@ && r.container_id@ == self.container_id@ && r.cmd@ == self.cmd@
                && r.env@ == self.env@ && r.attach_stdin == self.attach_stdin && r.attach_stdout
                == self.attach_stdout && r.attach_stderr == self.attach_stderr && r.tty == self.tty
                && r.exit_code == self.exit_code,
    {
        let mut r = self.duplicate();
        r.running = true;
        r
    }
}

/// Exec sessions by id, with the order in which they were inserted; once it
/// holds `MAX_EXEC_ENTRIES` sessions, inserting forgets the oldest.
pub struct ExecStore {
    entries: KeyedVec<ExecSpec>,
    order: Vec<String>,
}

/// The views of a sequence of strings.
pub open spec fn string_views(s: Seq<String>) -> Seq<Seq<char>> {
    s.map_values(|x: String| x@)
}

impl ExecStore {
    /// The sessions by id.
    pub closed spec fn sessions(&self) -> Map<Seq<char>, ExecSpec> {
        self.entries.map()
    }

    /// The ids in insertion order, oldest first; an id inserted twice occurs
    /// twice.
    pub closed spec fn insertion_order(&self) -> Seq<Seq<char>> {
        string_views(self.order@)
    }

    /// The store's invariant: each id is held once.
    pub closed spec fn wf(&self) -> bool {
        self.entries.wf()
    }

    /// The number of sessions held.
    pub open spec fn count(&self) -> nat {
        self.sessions().len()
    }

    /// Whether every held session is in the insertion order once, and nothing
    /// else is: the shape that inserting fresh ids and updating keeps.
    pub open spec fn tidy(&self) -> bool {
        &&& self.insertion_order().no_duplicates()
        &&& self.insertion_order().to_set() == self.sessions().dom()
    }

    /// An empty store.
    pub fn new() -> (r: Self)
        ensures
            r.wf(),
            r.sessions() == Map::<Seq<char>, ExecSpec>::empty(),
            r.insertion_order() == Seq::<Seq<char>>::empty(),
    {
        let r = ExecStore { entries: KeyedVec::new(), order: Vec::new() };
        assert(r.insertion_order() =~= Seq::<Seq<char>>::empty());
        r
    }

    /// The number of sessions held, as a `usize`.
    pub fn len(&self) -> (r: usize)
        requires
            self.wf(),
        ensures
            r == self.count(),
    {
        self.entries.len()
    }

    /// Records a session. When the store already holds `MAX_EXEC_ENTRIES`
    /// sessions, the oldest inserted id is first dropped from the order and
    /// its session forgotten.
    pub fn insert(&mut self, id: String, spec: ExecSpec)
        requires
            old(self).wf(),
        ensures
            final(self).wf(),
            ({
                let evict = old(self).count() >= MAX_EXEC_ENTRIES && old(
                    self,
                ).insertion_order().len() > 0;
                let kept = if evict {
                    old(self).sessions().remove(old(self).insertion_order()[0])
                } else {
                    old(self).sessions()
                };
                let order = if evict {
                    old(self).insertion_order().drop_first()
                } else {
                    old(self).insertion_order()
                };
                &&& final(self).sessions() == kept.insert(id@, spec)
                &&& final(self).insertion_order() == order.push(id@)
            }),
    {
        let ghost old_order = self.insertion_order();
        let n = self.len();
        if n >= MAX_EXEC_ENTRIES && self.order.len() > 0 {
            let oldest = self.order.remove(0);
            assert(string_views(self.order@) =~= old_order.drop_first());
            let _ = self.entries.remove(oldest.as_str());
        }
        let ghost mid = self.insertion_order();
        let ghost key = id@;
        self.order.push(id.clone());
        assert(self.insertion_order() =~= mid.push(key));
        self.entries.insert(id, spec);
    }

    /// A copy of the session under `id`.
    pub fn get(&self, id: &str) -> (r: Option<ExecSpec>)
        requires
            self.wf(),
        ensures
            r is None <==> !self.sessions().contains_key(id@),
            r matches Some(s) ==> s.same_as(self.sessions()[id@]),
    {
        match self.entries.get(id) {
            Some(s) => Some(s.duplicate()),
            None => None,
        }
    }

    /// Replaces the session under `id` (or records it), leaving the
    /// insertion order as it is.
    pub fn update(&mut self, id: &str, spec: ExecSpec)
        requires
            old(self).wf(),
        ensures
            final(self).wf(),
            final(self).sessions() == old(self).sessions().insert(id@, spec),
            final(self).insertion_order() == old(self).insertion_order(),
    {
        self.entries.insert(text::string_of(id), spec);
    }
}

/// Inserting an id that the store does not hold keeps it tidy and never
/// lets it grow past `MAX_EXEC_ENTRIES` sessions; updating a held id keeps it
/// tidy and its size unchanged.
pub proof fn lemma_exec_store_stays_capped(
    before: ExecStore,
    after: ExecStore,
    id: Seq<char>,
    spec: ExecSpec,
)
    requires
        before.wf(),
        before.tidy(),
        before.count() <= MAX_EXEC_ENTRIES,
        !before.sessions().contains_key(id),
        ({
            let evict = before.count() >= MAX_EXEC_ENTRIES && before.insertion_order().len() > 0;
            let kept = if evict {
                before.sessions().remove(before.insertion_order()[0])
            } else {
                before.sessions()
            };
            let order = if evict {
                before.insertion_order().drop_first()
            } else {
                before.insertion_order()
            };
            &&& after.sessions() == kept.insert(id, spec)
            &&& after.insertion_order() == order.push(id)
        }),
    ensures
        after.tidy(),
        after.count() <= MAX_EXEC_ENTRIES,
{
    before.entries.lemma_keys();
    let o = before.insertion_order();
    let m = before.sessions();
    let evict = before.count() >= MAX_EXEC_ENTRIES && o.len() > 0;
    o.unique_seq_to_set();
    if evict {
        let o2 = o.drop_first();
        let m2 = m.remove(o[0]);
        assert(o.to_set().contains(o[0]));
        assert(o2.no_duplicates()) by {
            assert forall|i: int, j: int|
                0 <= i < o2.len() && 0 <= j < o2.len() && i != j implies o2[i] != o2[j] by {
                assert(o2[i] == o[i + 1] && o2[j] == o[j + 1]);
            }
        }
        assert(o2.to_set() == m2.dom()) by {
            assert forall|q: Seq<char>| o2.to_set().contains(q) <==> m2.dom().contains(q) by {
                if o2.to_set().contains(q) {
                    let j = choose|j: int| 0 <= j < o2.len() && o2[j] == q;
                    assert(o[j + 1] == q);
                    assert(o.to_set().contains(q));
                    assert(q != o[0]);
                }
                if m2.dom().contains(q) {
                    assert(o.to_set().contains(q));
                    let j = choose|j: int| 0 <= j < o.len() && o[j] == q;
                    assert(j != 0);
                    assert(o2[j - 1] == q);
                }
            }
            assert(o2.to_set() =~= m2.dom());
        }
        let o3 = o2.push(id);
        assert(o3.no_duplicates()) by {
            assert(!o2.to_set().contains(id));
            assert forall|i: int, j: int|
                0 <= i < o3.len() && 0 <= j < o3.len() && i != j implies o3[i] != o3[j] by {
                if i == o2.len() {
                    assert(o2.to_set().contains(o2[j]));
                } else if j == o2.len() {
                    assert(o2.to_set().contains(o2[i]));
                }
            }
        }
        assert(o3.to_set() =~= m2.insert(id, spec).dom()) by {
            assert forall|q: Seq<char>| o3.to_set().contains(q) <==> m2.insert(id, spec).dom().contains(q) by {
                if o3.to_set().contains(q) {
                    let j = choose|j: int| 0 <= j < o3.len() && o3[j] == q;
                    if j < o2.len() {
                        assert(o2[j] == q);
                        assert(o2.to_set().contains(q));
                    }
                }
                if m2.insert(id, spec).dom().contains(q) && q != id {
                    assert(o2.to_set().contains(q));
                    let j = choose|j: int| 0 <= j < o2.len() && o2[j] == q;
                    assert(o3[j] == q);
                }
                if q == id {
                    assert(o3[o2.len() as int] == id);
                }
            }
        }
        assert(m2.len() == m.len() - 1);
    } else {
        let o3 = o.push(id);
        assert(!o.to_set().contains(id));
        assert(o3.no_duplicates()) by {
            assert forall|i: int, j: int|
                0 <= i < o3.len() && 0 <= j < o3.len() && i != j implies o3[i] != o3[j] by {
                if i == o.len() {
                    assert(o.to_set().contains(o[j]));
                } else if j == o.len() {
                    assert(o.to_set().contains(o[i]));
                }
            }
        }
        assert(o3.to_set() =~= m.insert(id, spec).dom()) by {
            assert forall|q: Seq<char>| o3.to_set().contains(q) <==> m.insert(id, spec).dom().contains(q) by {
                if o3.to_set().contains(q) {
                    let j = choose|j: int| 0 <= j < o3.len() && o3[j] == q;
                    if j < o.len() {
                        assert(o[j] == q);
                        assert(o.to_set().contains(q));
                    }
                }
                if m.insert(id, spec).dom().contains(q) && q != id {
                    assert(o.to_set().contains(q));
                    let j = choose|j: int| 0 <= j < o.len() && o[j] == q;
                    assert(o3[j] == q);
                }
                if q == id {
                    assert(o3[o.len() as int] == id);
                }
            }
        }
        if o.len() == 0 {
            assert(o.to_set() =~= Set::<Seq<char>>::empty());
            assert(m.dom() =~= Set::<Seq<char>>::empty());
        }
    }
}

/// Plans `POST /containers/<id>/exec`: a non-empty command, and a session
/// record `exec_id` that is not running yet and has no exit code.
pub fn plan_exec_create(container_id: &str, exec_id: String, body: ExecCreateBody) -> (r: Result<
    (ExecSpec, ExecProcessSpec),
    DockerApiError,
>)
    ensures
        body.cmd@.len() == 0 ==> (r matches Err(e) && is_bad_request(
            e,
            "exec Cmd cannot be empty"@,
        )),
        body.cmd@.len() != 0 ==> (r matches Ok((spec, process)) && spec.id@ == exec_id@
            && spec.container_id@ == container_id@ && spec.cmd@ == body.cmd@ && spec.env@ == match
        body.env {
            Some(e) => e@,
            None => Seq::empty(),
        } && spec.attach_stdin == body.attach_stdin && spec.attach_stdout == body.attach_stdout
            && spec.attach_stderr == body.attach_stderr && spec.tty == body.tty && !spec.running
            && spec.exit_code is None && process.container_id@ == container_id@
            && process.exec_id@ == exec_id@ && process.cmd@ == body.cmd@ && process.env@
            == spec.env@ && process.terminal == body.tty),
{
    if body.cmd.len() == 0 {
        return Err(DockerApiError::BadRequest(text::string_of("exec Cmd cannot be empty")));
    }
    let env = match body.env {
        Some(e) => e,
        None => Vec::new(),
    };
    let process = ExecProcessSpec {
        container_id: text::string_of(container_id),
        exec_id: exec_id.clone(),
        cmd: clone_strings(&body.cmd),
        env: clone_strings(&env),
        terminal: body.tty,
    };
    let spec = ExecSpec {
        id: exec_id,
        container_id: text::string_of(container_id),
        cmd: body.cmd,
        env,
        attach_stdin: body.attach_stdin,
        attach_stdout: body.attach_stdout,
        attach_stderr: body.attach_stderr,
        tty: body.tty,
        running: false,
        exit_code: None,
    };
    Ok((spec, process))
}

/// Plans an exec creation with a fresh session id made from the container
/// id and the current time.
pub fn plan_exec_create_now(container_id: &str, body: ExecCreateBody) -> (r: Result<
    (ExecSpec, ExecProcessSpec),
    DockerApiError,
>)
    ensures
        body.cmd@.len() == 0 ==> (r matches Err(e) && is_bad_request(
            e,
            "exec Cmd cannot be empty"@,
        )),
        body.cmd@.len() != 0 ==> (r matches Ok((spec, _)) && exists|nanos: u128|
            spec.id@ == container_id@ + "-exec-"@ + text::hex_text(nanos as nat)),
{
    let exec_id = containers::generated_exec_id(container_id);
    plan_exec_create(container_id, exec_id, body)
}

/// The bytes written to a started exec session's stream: an empty stdout
/// frame (raw when it has a terminal) and an empty stderr frame (without a
/// terminal), each only when attached.
pub open spec fn exec_start_output(spec: ExecSpec) -> Seq<u8> {
    (if spec.attach_stdout {
        if spec.tty {
            Seq::empty()
        } else {
            stream::frame_header(1, 0)
        }
    } else {
        Seq::empty()
    }) + (if spec.attach_stderr && !spec.tty {
        stream::frame_header(2, 0)
    } else {
        Seq::empty()
    })
}

/// Renders what a started exec session writes before it closes.
pub fn exec_start_bytes(spec: &ExecSpec) -> (r: Vec<u8>)
    ensures
        r@ == exec_start_output(*spec),
{
    let empty: Vec<u8> = Vec::new();
    let mut out: Vec<u8> = Vec::new();
    if spec.attach_stdout && !spec.tty {
        out = stream::encode_frame(1, empty.as_slice());
        assert(out@ =~= stream::frame_header(1, 0));
    }
    if spec.attach_stderr && !spec.tty {
        let mut e = stream::encode_frame(2, empty.as_slice());
        assert(e@ =~= stream::frame_header(2, 0));
        out.append(&mut e);
    }
    assert(out@ =~= exec_start_output(*spec));
    out
}

} // verus!
