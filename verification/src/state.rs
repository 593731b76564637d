//! State management for Flocker.
//!
//! This module holds the persistent container registry: the set of container
//! records this tool has created, unique by id and by name, together with the
//! operations that query it and compute defaults for the next session.
//! Persistence itself (reading and writing the registry file) goes through
//! the codec module; the caller performs the file I/O.

use vstd::prelude::*;
use vstd::multiset::Multiset;
use vstd::string::StringExecFns;

use crate::error::FlockerError;
use crate::strutil::{chars_of, chars_contain, contains_seq, lex_le};
use crate::strutil::{lemma_lex_le_total, lemma_lex_le_trans};

verus! {

/// Configuration for a data directory
#[derive(Debug, Clone)]
pub struct DataDirConfig {
    /// Relative path to the data directory
    pub relative_path: Option<String>,
    /// Absolute path to the data directory
    pub absolute_path: String,
}

/// The mathematical value of a `DataDirConfig`.
pub struct DataDirView {
    pub relative_path: Option<Seq<char>>,
    pub absolute_path: Seq<char>,
}

impl View for DataDirConfig {
    type V = DataDirView;

    open spec fn view(&self) -> DataDirView {
        DataDirView {
            relative_path: match self.relative_path {
                Some(p) => Some(p@),
                None => None,
            },
            absolute_path: self.absolute_path@,
        }
    }
}

/// The mathematical value of an optional data directory.
pub open spec fn opt_dir_view(o: Option<DataDirConfig>) -> Option<DataDirView> {
    match o {
        Some(d) => Some(d@),
        None => None,
    }
}

/// The mathematical value of an optional string.
pub open spec fn opt_str_view(o: Option<String>) -> Option<Seq<char>> {
    match o {
        Some(s) => Some(s@),
        None => None,
    }
}

/// Whether `base` is a prefix of `path`, compared path-component-wise.
pub uninterp spec fn starts_with_path(path: Seq<char>, base: Seq<char>) -> bool;

/// Relies on std::path::Path::starts_with: whether `base` is a component-wise
/// prefix of `path`, a pure function of the two paths.
#[verifier::external_body]
fn path_starts_with(path: &str, base: &str) -> (r: bool)
    ensures
        r == starts_with_path(path@, base@),
{
    std::path::Path::new(path).starts_with(std::path::Path::new(base))
}

/// The relative path from `base` to `path`, where one exists.
pub uninterp spec fn rel_path_of(path: Seq<char>, base: Seq<char>) -> Option<Seq<char>>;

/// Relies on pathdiff::diff_paths: the relative path from `base` to `path`,
/// a pure function of the two paths.
#[verifier::external_body]
fn diff_paths_str(path: &str, base: &str) -> (r: Option<String>)
    ensures
        opt_str_view(r) == rel_path_of(path@, base@),
{
    pathdiff::diff_paths(path, base).map(|p| p.to_string_lossy().into_owned())
}

/// The character sequence of `base` with the component `data` appended.
pub open spec fn join_data(base: Seq<char>) -> Seq<char> {
    if base.len() == 0 {
        "data"@
    } else if base.last() == '/' {
        base + "data"@
    } else {
        base + "/data"@
    }
}

impl DataDirConfig {
    /// Pair an absolute path with the relative form the user typed, if any.
    pub fn new(absolute_path: String, relative_path: Option<String>) -> (r: Self)
        ensures
            r.absolute_path == absolute_path,
            r.relative_path == relative_path,
    {
        DataDirConfig { relative_path, absolute_path }
    }

    /// Create a new DataDirConfig from a string path, resolved against the
    /// given current directory.
    pub fn from_path_str(path_str: &str, current_dir: &str) -> (r: Self)
        ensures
            r.absolute_path@ == path_str@,
            opt_str_view(r.relative_path) == if starts_with_path(path_str@, current_dir@) {
                rel_path_of(path_str@, current_dir@)
            } else {
                None::<Seq<char>>
            },
    {
        Self::from_path(path_str, current_dir)
    }

    /// Create a new DataDirConfig from a path, resolved against the given
    /// current directory.
    pub fn from_path(path: &str, current_dir: &str) -> (r: Self)
        ensures
            r.absolute_path@ == path@,
            opt_str_view(r.relative_path) == if starts_with_path(path@, current_dir@) {
                rel_path_of(path@, current_dir@)
            } else {
                None::<Seq<char>>
            },
    {
        let relative_path = if path_starts_with(path, current_dir) {
            diff_paths_str(path, current_dir)
        } else {
            None
        };
        DataDirConfig { relative_path, absolute_path: path.to_owned() }
    }

    /// The default data directory under the given current directory.
    pub fn from_current_dir(current_dir: &str) -> (r: Self)
        ensures
            r.absolute_path@ == join_data(current_dir@),
            opt_str_view(r.relative_path) == Some("./data"@),
    {
        let cs = chars_of(current_dir);
        let absolute_path = if cs.len() == 0 {
            "data".to_owned()
        } else if cs[cs.len() - 1] == '/' {
            let mut a = current_dir.to_owned();
            a.append("data");
            a
        } else {
            let mut a = current_dir.to_owned();
            a.append("/data");
            a
        };
        DataDirConfig { relative_path: Some("./data".to_owned()), absolute_path }
    }

    /// The path to show the user: the relative form if one was recorded,
    /// otherwise the absolute one.
    pub fn display_relative_path(&self) -> (r: String)
        ensures
            r@ == match self.relative_path {
                Some(p) => p@,
                None => self.absolute_path@,
            },
    {
        match &self.relative_path {
            Some(p) => p.clone(),
            None => self.absolute_path.clone(),
        }
    }
}

/// Information about a Fluree container
#[derive(Debug, Clone)]
pub struct ContainerInfo {
    /// Container ID
    pub id: String,
    /// User-given name for the container
    pub name: String,
    /// Port mapping
    pub port: u16,
    /// Data directory configuration
    pub data_dir: Option<DataDirConfig>,
    /// Image tag used for this container
    pub image_tag: String,
    /// Last start time
    pub last_start: Option<String>,
}

/// The mathematical value of a `ContainerInfo`.
pub struct ContainerView {
    pub id: Seq<char>,
    pub name: Seq<char>,
    pub port: u16,
    pub data_dir: Option<DataDirView>,
    pub image_tag: Seq<char>,
    pub last_start: Option<Seq<char>>,
}

impl View for ContainerInfo {
    type V = ContainerView;

    open spec fn view(&self) -> ContainerView {
        ContainerView {
            id: self.id@,
            name: self.name@,
            port: self.port,
            data_dir: opt_dir_view(self.data_dir),
            image_tag: self.image_tag@,
            last_start: opt_str_view(self.last_start),
        }
    }
}

/// Relies on chrono::Utc::now and DateTime::to_rfc3339_opts for the current
/// time as an RFC3339 string; the value depends on the clock, so nothing is
/// stated about it.
#[verifier::external_body]
fn now_rfc3339() -> String {
    chrono::Utc::now().to_rfc3339_opts(chrono::SecondsFormat::Secs, true)
}

impl ContainerInfo {
    /// A record for a freshly created container; creation counts as its
    /// first start, so `last_start` is stamped with the current time.
    pub fn new(
        id: String,
        name: String,
        port: u16,
        data_dir: Option<DataDirConfig>,
        image_tag: String,
    ) -> (r: Self)
        ensures
            r.id == id,
            r.name == name,
            r.port == port,
            r.data_dir == data_dir,
            r.image_tag == image_tag,
            r.last_start is Some,
    {
        let last_start = Some(now_rfc3339());
        Self { id, name, port, data_dir, image_tag, last_start }
    }

    /// A field-for-field copy whose mathematical value equals this record's.
    fn dup(&self) -> (r: Self)
        ensures
            r == *self,
    {
        let data_dir = match &self.data_dir {
            Some(d) => Some(
                DataDirConfig {
                    relative_path: match &d.relative_path {
                        Some(p) => Some(p.clone()),
                        None => None,
                    },
                    absolute_path: d.absolute_path.clone(),
                },
            ),
            None => None,
        };
        let last_start = match &self.last_start {
            Some(t) => Some(t.clone()),
            None => None,
        };
        ContainerInfo {
            id: self.id.clone(),
            name: self.name.clone(),
            port: self.port,
            data_dir,
            image_tag: self.image_tag.clone(),
            last_start,
        }
    }
}

/// The mathematical values of a sequence of records, in the same order.
pub open spec fn views_of(s: Seq<ContainerInfo>) -> Seq<ContainerView> {
    s.map_values(|c: ContainerInfo| c@)
}

/// Records are pairwise distinct in id and in name.
pub open spec fn wf_records(s: Seq<ContainerView>) -> bool {
    forall|i: int, j: int|
        0 <= i < j < s.len() ==> s[i].id != s[j].id && s[i].name != s[j].name
}

/// The first index at or after `i` holding the given id, or -1.
pub open spec fn idx_of_id_from(s: Seq<ContainerView>, id: Seq<char>, i: int) -> int
    decreases s.len() - i,
{
    if i < 0 || i >= s.len() {
        -1
    } else if s[i].id == id {
        i
    } else {
        idx_of_id_from(s, id, i + 1)
    }
}

/// The index of the first record with the given id, or -1 if there is none.
pub open spec fn idx_of_id(s: Seq<ContainerView>, id: Seq<char>) -> int {
    idx_of_id_from(s, id, 0)
}

/// What `idx_of_id_from` returns: -1 exactly when the id is absent from `i`
/// on, otherwise the first index at or after `i` holding it.
pub proof fn lemma_idx_of_id_from(s: Seq<ContainerView>, id: Seq<char>, i: int)
    requires
        0 <= i,
    ensures
        idx_of_id_from(s, id, i) == -1 <==> (forall|j: int|
            i <= j < s.len() ==> s[j].id != id),
        idx_of_id_from(s, id, i) != -1 ==> i <= idx_of_id_from(s, id, i) < s.len() && s[
            idx_of_id_from(s, id, i)].id == id && (forall|j: int|
            i <= j < idx_of_id_from(s, id, i) ==> s[j].id != id),
    decreases s.len() - i,
{
    if i < s.len() && s[i].id != id {
        lemma_idx_of_id_from(s, id, i + 1);
    }
}

/// What `idx_of_id` returns: -1 exactly when the id is absent, otherwise the
/// first index holding it.
pub proof fn lemma_idx_of_id(s: Seq<ContainerView>, id: Seq<char>)
    ensures
        idx_of_id(s, id) == -1 <==> (forall|i: int| 0 <= i < s.len() ==> s[i].id != id),
        idx_of_id(s, id) != -1 ==> 0 <= idx_of_id(s, id) < s.len() && s[idx_of_id(s, id)].id
            == id && (forall|i: int| 0 <= i < idx_of_id(s, id) ==> s[i].id != id),
{
    lemma_idx_of_id_from(s, id, 0);
}

/// The first index at or after `i` of a record that takes `c`'s name while
/// having a different id, or -1.
pub open spec fn conflict_idx_from(s: Seq<ContainerView>, c: ContainerView, i: int) -> int
    decreases s.len() - i,
{
    if i < 0 || i >= s.len() {
        -1
    } else if s[i].name == c.name && s[i].id != c.id {
        i
    } else {
        conflict_idx_from(s, c, i + 1)
    }
}

/// The index of the first record that takes `c`'s name while having a
/// different id, or -1 if there is none.
pub open spec fn conflict_idx(s: Seq<ContainerView>, c: ContainerView) -> int {
    conflict_idx_from(s, c, 0)
}

/// What `conflict_idx_from` returns, in the manner of `idx_of_id_from`.
pub proof fn lemma_conflict_idx_from(s: Seq<ContainerView>, c: ContainerView, i: int)
    requires
        0 <= i,
    ensures
        conflict_idx_from(s, c, i) == -1 <==> (forall|j: int|
            i <= j < s.len() ==> !(s[j].name == c.name && s[j].id != c.id)),
        conflict_idx_from(s, c, i) != -1 ==> i <= conflict_idx_from(s, c, i) < s.len() && s[
            conflict_idx_from(s, c, i)].name == c.name && s[conflict_idx_from(s, c, i)].id
            != c.id && (forall|j: int|
            i <= j < conflict_idx_from(s, c, i) ==> !(s[j].name == c.name && s[j].id != c.id)),
    decreases s.len() - i,
{
    if i < s.len() && !(s[i].name == c.name && s[i].id != c.id) {
        lemma_conflict_idx_from(s, c, i + 1);
    }
}

/// What `conflict_idx` returns: -1 exactly when no other record holds `c`'s
/// name, otherwise the first index of such a record.
pub proof fn lemma_conflict_idx(s: Seq<ContainerView>, c: ContainerView)
    ensures
        conflict_idx(s, c) == -1 <==> (forall|i: int|
            0 <= i < s.len() ==> !(s[i].name == c.name && s[i].id != c.id)),
        conflict_idx(s, c) != -1 ==> 0 <= conflict_idx(s, c) < s.len() && s[conflict_idx(
            s,
            c,
        )].name == c.name && s[conflict_idx(s, c)].id != c.id && (forall|i: int|
            0 <= i < conflict_idx(s, c) ==> !(s[i].name == c.name && s[i].id != c.id)),
{
    lemma_conflict_idx_from(s, c, 0);
}

/// The registry after adding or updating `c`: a record with `c`'s id is
/// replaced in place; otherwise `c` is appended.
pub open spec fn spec_add(s: Seq<ContainerView>, c: ContainerView) -> Seq<ContainerView> {
    if idx_of_id(s, c.id) == -1 {
        s.push(c)
    } else {
        s.update(idx_of_id(s, c.id), c)
    }
}

/// The message reported when `c`'s name is already taken.
pub open spec fn conflict_msg(s: Seq<ContainerView>, c: ContainerView) -> Seq<char> {
    "Container name '"@ + c.name + "' is already in use by container "@ + s[conflict_idx(
        s,
        c,
    )].id
}

/// The message reported when an id is not present.
pub open spec fn not_found_msg(id: Seq<char>) -> Seq<char> {
    "Container "@ + id + " not found in state"@
}

/// Persistent state for the Flocker application: the container registry.
#[derive(Debug)]
pub struct State {
    containers: Vec<ContainerInfo>,
}

impl View for State {
    type V = Seq<ContainerView>;

    closed spec fn view(&self) -> Seq<ContainerView> {
        views_of(self.containers@)
    }
}

impl Default for State {
    /// The empty registry.
    fn default() -> (r: Self)
        ensures
            r@ == Seq::<ContainerView>::empty(),
            r.wf(),
    {
        let r = State { containers: Vec::new() };
        proof {
            assert(r@ =~= Seq::<ContainerView>::empty());
        }
        r
    }
}

impl State {
    /// The registry's invariant: no two records share an id or a name.
    pub open spec fn wf(self) -> bool {
        wf_records(self@)
    }

    /// The position of the record with the given id, if any.
    fn position_of_id(&self, container_id: &str) -> (r: Option<usize>)
        ensures
            match r {
                Some(i) => idx_of_id(self@, container_id@) == i as int && i < self@.len(),
                None => idx_of_id(self@, container_id@) == -1,
            },
    {
        let n = self.containers.len();
        let mut i: usize = 0;
        while i < n
            invariant
                n == self.containers@.len(),
                i <= n,
                forall|k: int| 0 <= k < i ==> self@[k].id != container_id@,
            decreases n - i,
        {
            assert(self@[i as int] == self.containers@[i as int]@);
            if crate::strutil::str_eq(self.containers[i].id.as_str(), container_id) {
                proof {
                    lemma_idx_of_id(self@, container_id@);
                }
                return Some(i);
            }
            i += 1;
        }
        proof {
            lemma_idx_of_id(self@, container_id@);
        }
        None
    }

    /// The position of the first record holding `info`'s name under a
    /// different id, if any.
    fn position_of_conflict(&self, info: &ContainerInfo) -> (r: Option<usize>)
        ensures
            match r {
                Some(i) => conflict_idx(self@, info@) == i as int && i < self@.len(),
                None => conflict_idx(self@, info@) == -1,
            },
    {
        let n = self.containers.len();
        let mut i: usize = 0;
        while i < n
            invariant
                n == self.containers@.len(),
                i <= n,
                forall|k: int|
                    0 <= k < i ==> !(self@[k].name == info@.name && self@[k].id != info@.id),
            decreases n - i,
        {
            assert(self@[i as int] == self.containers@[i as int]@);
            let c = &self.containers[i];
            if crate::strutil::str_eq(c.name.as_str(), info.name.as_str()) && !crate::strutil::str_eq(
                c.id.as_str(),
                info.id.as_str(),
            ) {
                proof {
                    let sv = self@;
                    let cv = info@;
                    assert(sv[i as int].name == cv.name && sv[i as int].id != cv.id);
                    lemma_conflict_idx(sv, cv);
                    assert(conflict_idx(sv, cv) != -1);
                    let ci = conflict_idx(sv, cv);
                    if ci < i as int {
                        assert(!(sv[ci].name == cv.name && sv[ci].id != cv.id));
                        assert(false);
                    }
                    if ci > i as int {
                        assert(sv[i as int].id != cv.id);
                        assert(false);
                    }
                }
                return Some(i);
            }
            i += 1;
        }
        proof {
            lemma_conflict_idx(self@, info@);
        }
        None
    }

    /// Add or update a container in the state. A record with the same id is
    /// replaced; a second record under another record's name is rejected.
    pub fn add_container(&mut self, info: ContainerInfo) -> (r: Result<(), FlockerError>)
        requires
            old(self).wf(),
        ensures
            final(self).wf(),
            match r {
                Ok(()) => conflict_idx(old(self)@, info@) == -1 && final(self)@ == spec_add(
                    old(self)@,
                    info@,
                ),
                Err(e) => conflict_idx(old(self)@, info@) != -1 && final(self)@ == old(self)@
                    && match e {
                    FlockerError::Config(m) => m@ == conflict_msg(old(self)@, info@),
                    _ => false,
                },
            },
    {
        let ghost s0 = self@;
        if let Some(ci) = self.position_of_conflict(&info) {
            let mut m = "Container name '".to_owned();
            m.append(info.name.as_str());
            m.append("' is already in use by container ");
            m.append(self.containers[ci].id.as_str());
            proof {
                assert(m@ =~= conflict_msg(s0, info@));
            }
            return Err(FlockerError::Config(m));
        }
        proof {
            lemma_conflict_idx(s0, info@);
        }
        match self.position_of_id(info.id.as_str()) {
            Some(i) => {
                proof {
                    lemma_idx_of_id(s0, info@.id);
                }
                self.containers[i] = info;
                proof {
                    assert(self@ =~= s0.update(i as int, info@));
                    assert forall|p: int, q: int| 0 <= p < q < self@.len() implies self@[p].id
                        != self@[q].id && self@[p].name != self@[q].name by {
                        assert(s0[p].id != s0[q].id && s0[p].name != s0[q].name);
                    }
                }
                Ok(())
            },
            None => {
                proof {
                    lemma_idx_of_id(s0, info@.id);
                }
                self.containers.push(info);
                proof {
                    assert(self@ =~= s0.push(info@));
                    assert forall|p: int, q: int| 0 <= p < q < self@.len() implies self@[p].id
                        != self@[q].id && self@[p].name != self@[q].name by {
                        if q < s0.len() {
                            assert(s0[p].id != s0[q].id && s0[p].name != s0[q].name);
                        }
                    }
                }
                Ok(())
            },
        }
    }

    /// Remove a container from the state; an unknown id is reported, and the
    /// registry is left unchanged.
    pub fn remove_container(&mut self, container_id: &str) -> (r: Result<(), FlockerError>)
        requires
            old(self).wf(),
        ensures
            final(self).wf(),
            match r {
                Ok(()) => idx_of_id(old(self)@, container_id@) != -1 && final(self)@ == old(
                    self,
                )@.remove(idx_of_id(old(self)@, container_id@)),
                Err(e) => idx_of_id(old(self)@, container_id@) == -1 && final(self)@ == old(self)@
                    && match e {
                    FlockerError::Config(m) => m@ == not_found_msg(container_id@),
                    _ => false,
                },
            },
    {
        let ghost s0 = self@;
        match self.position_of_id(container_id) {
            Some(i) => {
                self.containers.remove(i);
                proof {
                    assert(self@ =~= s0.remove(i as int));
                    assert forall|p: int, q: int| 0 <= p < q < self@.len() implies self@[p].id
                        != self@[q].id && self@[p].name != self@[q].name by {
                        let p0 = if p < i as int { p } else { p + 1 };
                        let q0 = if q < i as int { q } else { q + 1 };
                        assert(self@[p] == s0[p0] && self@[q] == s0[q0]);
                        assert(s0[p0].id != s0[q0].id && s0[p0].name != s0[q0].name);
                    }
                }
                Ok(())
            },
            None => {
                let mut m = "Container ".to_owned();
                m.append(container_id);
                m.append(" not found in state");
                proof {
                    assert(m@ =~= not_found_msg(container_id@));
                }
                Err(FlockerError::Config(m))
            },
        }
    }

    /// Find containers whose name contains the given text.
    pub fn find_containers_by_name(&self, name: &str) -> (r: Vec<ContainerInfo>)
        ensures
            views_of(r@) == filter_name(self@, name@),
    {
        let needle = chars_of(name);
        let n = self.containers.len();
        let mut r: Vec<ContainerInfo> = Vec::new();
        let mut i: usize = 0;
        while i < n
            invariant
                n == self.containers@.len(),
                i <= n,
                needle@ == name@,
                views_of(r@) == filter_name(self@.take(i as int), name@),
            decreases n - i,
        {
            let hay = chars_of(self.containers[i].name.as_str());
            let ghost prev = views_of(r@);
            if chars_contain(&hay, &needle) {
                r.push(self.containers[i].dup());
                proof {
                    assert(views_of(r@) =~= prev.push(self@[i as int]));
                }
            }
            proof {
                assert(self@.take(i + 1).drop_last() =~= self@.take(i as int));
                assert(self@.take(i + 1).last() == self@[i as int]);
                if contains_seq(self@[i as int].name, name@) {
                    assert(views_of(r@) =~= filter_name(self@.take(i + 1), name@));
                } else {
                    assert(views_of(r@) =~= filter_name(self@.take(i + 1), name@));
                }
            }
            i += 1;
        }
        proof {
            assert(self@.take(n as int) =~= self@);
        }
        r
    }

    /// Get a container by ID
    pub fn get_container(&self, container_id: &str) -> (r: Option<&ContainerInfo>)
        ensures
            match r {
                Some(c) => idx_of_id(self@, container_id@) != -1 && c@ == self@[idx_of_id(
                    self@,
                    container_id@,
                )],
                None => idx_of_id(self@, container_id@) == -1,
            },
    {
        match self.position_of_id(container_id) {
            Some(i) => Some(&self.containers[i]),
            None => None,
        }
    }

    /// Update the recorded last start time of the container with the given
    /// id; an unknown id is reported.
    pub fn update_container_start_time(&mut self, container_id: &str, start_time: String) -> (r:
        Result<(), FlockerError>)
        requires
            old(self).wf(),
        ensures
            final(self).wf(),
            match r {
                Ok(()) => idx_of_id(old(self)@, container_id@) != -1 && final(self)@ == old(
                    self,
                )@.update(
                    idx_of_id(old(self)@, container_id@),
                    ContainerView {
                        last_start: Some(start_time@),
                        ..old(self)@[idx_of_id(old(self)@, container_id@)]
                    },
                ),
                Err(e) => idx_of_id(old(self)@, container_id@) == -1 && final(self)@ == old(
                    self,
                )@ && match e {
                    FlockerError::Config(m) => m@ == not_found_msg(container_id@),
                    _ => false,
                },
            },
    {
        let ghost s0 = self@;
        match self.position_of_id(container_id) {
            Some(i) => {
                let mut rec = self.containers[i].dup();
                rec.last_start = Some(start_time);
                self.containers[i] = rec;
                proof {
                    let c = ContainerView { last_start: Some(start_time@), ..s0[i as int] };
                    assert(self@ =~= s0.update(i as int, c));
                    assert forall|p: int, q: int| 0 <= p < q < self@.len() implies self@[p].id
                        != self@[q].id && self@[p].name != self@[q].name by {
                        assert(s0[p].id != s0[q].id && s0[p].name != s0[q].name);
                    }
                }
                Ok(())
            },
            None => {
                let mut m = "Container ".to_owned();
                m.append(container_id);
                m.append(" not found in state");
                proof {
                    assert(m@ =~= not_found_msg(container_id@));
                }
                Err(FlockerError::Config(m))
            },
        }
    }

    /// Update container status: a running container's last start time is
    /// recorded; anything else leaves the registry unchanged.
    pub fn update_container_status(
        &mut self,
        container_id: &str,
        is_running: bool,
        start_time: Option<String>,
    ) -> (r: Result<(), FlockerError>)
        requires
            old(self).wf(),
        ensures
            final(self).wf(),
            r is Ok,
            final(self)@ == if idx_of_id(old(self)@, container_id@) != -1 && is_running {
                old(self)@.update(
                    idx_of_id(old(self)@, container_id@),
                    ContainerView {
                        last_start: opt_str_view(start_time),
                        ..old(self)@[idx_of_id(old(self)@, container_id@)]
                    },
                )
            } else {
                old(self)@
            },
    {
        let ghost s0 = self@;
        match self.position_of_id(container_id) {
            Some(i) => {
                if is_running {
                    let mut rec = self.containers[i].dup();
                    rec.last_start = start_time;
                    self.containers[i] = rec;
                    proof {
                        let c = ContainerView { last_start: opt_str_view(start_time), ..s0[i as int] };
                        assert(self@ =~= s0.update(i as int, c));
                        assert forall|p: int, q: int| 0 <= p < q < self@.len() implies self@[p].id
                            != self@[q].id && self@[p].name != self@[q].name by {
                            assert(s0[p].id != s0[q].id && s0[p].name != s0[q].name);
                        }
                    }
                }
                Ok(())
            },
            None => Ok(()),
        }
    }

    /// The records, in insertion order.
    pub fn containers(&self) -> (r: &Vec<ContainerInfo>)
        ensures
            views_of(r@) == self@,
    {
        &self.containers
    }

    /// A registry holding exactly the given records, refused when two of
    /// them share an id or a name.
    pub fn from_records(records: Vec<ContainerInfo>) -> (r: Option<State>)
        ensures
            match r {
                Some(st) => st.wf() && st@ == views_of(records@),
                None => !wf_records(views_of(records@)),
            },
    {
        if records_wf(&records) {
            Some(State { containers: records })
        } else {
            None
        }
    }
}

/// The records whose name contains `name`, in registry order.
pub open spec fn filter_name(s: Seq<ContainerView>, name: Seq<char>) -> Seq<ContainerView>
    decreases s.len(),
{
    if s.len() == 0 {
        Seq::empty()
    } else if contains_seq(s.last().name, name) {
        filter_name(s.drop_last(), name).push(s.last())
    } else {
        filter_name(s.drop_last(), name)
    }
}

/// Order on optional timestamps: an absent time sorts before any present
/// one; present times compare lexicographically, which on same-format
/// RFC3339 strings is chronological order.
pub open spec fn ts_le(a: Option<Seq<char>>, b: Option<Seq<char>>) -> bool {
    match a {
        None => true,
        Some(x) => match b {
            None => false,
            Some(y) => lex_le(x, y),
        },
    }
}

/// Strict order on optional timestamps.
pub open spec fn ts_lt(a: Option<Seq<char>>, b: Option<Seq<char>>) -> bool {
    !ts_le(b, a)
}

/// The timestamp order is total.
pub proof fn lemma_ts_le_total(a: Option<Seq<char>>, b: Option<Seq<char>>)
    ensures
        ts_le(a, b) || ts_le(b, a),
{
    if a is Some && b is Some {
        lemma_lex_le_total(a->0, b->0);
    }
}

/// The timestamp order is transitive.
pub proof fn lemma_ts_le_trans(a: Option<Seq<char>>, b: Option<Seq<char>>, c: Option<Seq<char>>)
    requires
        ts_le(a, b),
        ts_le(b, c),
    ensures
        ts_le(a, c),
{
    if a is Some && b is Some && c is Some {
        lemma_lex_le_trans(a->0, b->0, c->0);
    }
}

/// Executable timestamp comparison.
fn ts_le_exec(a: &Option<String>, b: &Option<String>) -> (r: bool)
    ensures
        r == ts_le(opt_str_view(*a), opt_str_view(*b)),
{
    match a {
        None => true,
        Some(x) => match b {
            None => false,
            Some(y) => crate::strutil::str_le(x.as_str(), y.as_str()),
        },
    }
}

/// Insert a record into a descending-sorted sequence: it goes after every
/// record whose time is at least its own, so ties keep their old order.
pub open spec fn insert_desc(c: ContainerView, s: Seq<ContainerView>) -> Seq<ContainerView>
    decreases s.len(),
{
    if s.len() == 0 {
        seq![c]
    } else if ts_lt(s[0].last_start, c.last_start) {
        seq![c] + s
    } else {
        seq![s[0]] + insert_desc(c, s.drop_first())
    }
}

/// The records sorted by last start time, most recent first; records that
/// tie, or lack a time, keep their relative order.
pub open spec fn sort_desc(s: Seq<ContainerView>) -> Seq<ContainerView>
    decreases s.len(),
{
    if s.len() == 0 {
        Seq::empty()
    } else {
        insert_desc(s.last(), sort_desc(s.drop_last()))
    }
}

/// Sorted most recent first.
pub open spec fn sorted_desc(s: Seq<ContainerView>) -> bool {
    forall|i: int, j: int| 0 <= i < j < s.len() ==> ts_le(s[j].last_start, s[i].last_start)
}

/// Every element of `insert_desc(c, s)` is `c` or comes from `s`.
proof fn lemma_insert_desc_elems(c: ContainerView, s: Seq<ContainerView>)
    ensures
        insert_desc(c, s).len() == s.len() + 1,
        forall|k: int|
            0 <= k < insert_desc(c, s).len() ==> #[trigger] insert_desc(c, s)[k] == c
                || s.contains(insert_desc(c, s)[k]),
    decreases s.len(),
{
    if s.len() == 0 {
    } else if ts_lt(s[0].last_start, c.last_start) {
        assert forall|k: int| 0 <= k < insert_desc(c, s).len() implies #[trigger] insert_desc(
            c,
            s,
        )[k] == c || s.contains(insert_desc(c, s)[k]) by {
            if k > 0 {
                assert(insert_desc(c, s)[k] == s[k - 1]);
            }
        }
    } else {
        let t = s.drop_first();
        lemma_insert_desc_elems(c, t);
        assert forall|k: int| 0 <= k < insert_desc(c, s).len() implies #[trigger] insert_desc(
            c,
            s,
        )[k] == c || s.contains(insert_desc(c, s)[k]) by {
            if k == 0 {
                assert(insert_desc(c, s)[0] == s[0]);
                assert(s.contains(s[0]));
            } else {
                assert(insert_desc(c, s)[k] == insert_desc(c, t)[k - 1]);
                if insert_desc(c, t)[k - 1] != c {
                    assert(t.contains(insert_desc(c, t)[k - 1]));
                    let j = choose|j: int| 0 <= j < t.len() && t[j] == insert_desc(c, t)[k - 1];
                    assert(s[j + 1] == t[j]);
                    assert(s.contains(s[j + 1]));
                }
            }
        }
    }
}

/// Inserting into a sorted sequence keeps it sorted.
proof fn lemma_insert_desc_sorted(c: ContainerView, s: Seq<ContainerView>)
    requires
        sorted_desc(s),
    ensures
        sorted_desc(insert_desc(c, s)),
    decreases s.len(),
{
    let r = insert_desc(c, s);
    if s.len() == 0 {
    } else if ts_lt(s[0].last_start, c.last_start) {
        assert forall|i: int, j: int| 0 <= i < j < r.len() implies ts_le(
            r[j].last_start,
            r[i].last_start,
        ) by {
            if i == 0 {
                lemma_ts_le_total(s[0].last_start, c.last_start);
                assert(ts_le(s[0].last_start, c.last_start));
                assert(r[j] == s[j - 1]);
                if j > 1 {
                    assert(ts_le(s[j - 1].last_start, s[0].last_start));
                    lemma_ts_le_trans(s[j - 1].last_start, s[0].last_start, c.last_start);
                }
            } else {
                assert(r[i] == s[i - 1] && r[j] == s[j - 1]);
            }
        }
    } else {
        let t = s.drop_first();
        assert(forall|k: int| 0 <= k < t.len() ==> #[trigger] t[k] == s[k + 1]);
        lemma_insert_desc_sorted(c, t);
        lemma_insert_desc_elems(c, t);
        let ri = insert_desc(c, t);
        assert forall|i: int, j: int| 0 <= i < j < r.len() implies ts_le(
            r[j].last_start,
            r[i].last_start,
        ) by {
            if i == 0 {
                assert(r[0] == s[0]);
                assert(r[j] == ri[j - 1]);
                if ri[j - 1] == c {
                    assert(ts_le(c.last_start, s[0].last_start));
                } else {
                    assert(t.contains(ri[j - 1]));
                    let k = choose|k: int| 0 <= k < t.len() && t[k] == ri[j - 1];
                    assert(ts_le(s[k + 1].last_start, s[0].last_start));
                }
            } else {
                assert(r[i] == ri[i - 1] && r[j] == ri[j - 1]);
            }
        }
    }
}

/// `insert_desc` adds exactly one copy of `c` to the records.
proof fn lemma_insert_desc_multiset(c: ContainerView, s: Seq<ContainerView>)
    ensures
        insert_desc(c, s).to_multiset() == s.to_multiset().insert(c),
    decreases s.len(),
{
    broadcast use vstd::seq_lib::group_to_multiset_ensures;
    broadcast use vstd::seq_lib::lemma_multiset_commutative;

    if s.len() == 0 {
        assert(seq![c] =~= Seq::<ContainerView>::empty().push(c));
        assert(insert_desc(c, s).to_multiset() =~= s.to_multiset().insert(c));
    } else if ts_lt(s[0].last_start, c.last_start) {
        assert(seq![c] =~= Seq::<ContainerView>::empty().push(c));
        assert((seq![c] + s).to_multiset() == seq![c].to_multiset().add(s.to_multiset()));
        assert(seq![c].to_multiset() =~= Multiset::<ContainerView>::empty().insert(c));
        assert(insert_desc(c, s).to_multiset() =~= s.to_multiset().insert(c));
    } else {
        let t = s.drop_first();
        lemma_insert_desc_multiset(c, t);
        assert(seq![s[0]] =~= Seq::<ContainerView>::empty().push(s[0]));
        assert(seq![s[0]].to_multiset() =~= Multiset::<ContainerView>::empty().insert(s[0]));
        assert((seq![s[0]] + insert_desc(c, t)).to_multiset() == seq![s[0]].to_multiset().add(
            insert_desc(c, t).to_multiset(),
        ));
        assert(s =~= seq![s[0]] + t);
        assert(s.to_multiset() == seq![s[0]].to_multiset().add(t.to_multiset()));
        assert(insert_desc(c, s).to_multiset() =~= s.to_multiset().insert(c));
    }
}

/// The sort is sorted and keeps exactly the original records.
pub proof fn lemma_sort_desc(s: Seq<ContainerView>)
    ensures
        sorted_desc(sort_desc(s)),
        sort_desc(s).to_multiset() == s.to_multiset(),
        sort_desc(s).len() == s.len(),
    decreases s.len(),
{
    broadcast use vstd::seq_lib::group_to_multiset_ensures;

    if s.len() > 0 {
        let t = s.drop_last();
        lemma_sort_desc(t);
        lemma_insert_desc_sorted(s.last(), sort_desc(t));
        lemma_insert_desc_multiset(s.last(), sort_desc(t));
        lemma_insert_desc_elems(s.last(), sort_desc(t));
        assert(s =~= t.push(s.last()));
        assert(s.to_multiset() == t.to_multiset().insert(s.last()));
    }
}

/// Place `c` into the already-sorted `v`, after every record whose time is
/// at least its own.
fn insert_desc_exec(c: ContainerInfo, v: &mut Vec<ContainerInfo>)
    ensures
        views_of(final(v)@) == insert_desc(c@, views_of(old(v)@)),
{
    let ghost s = views_of(v@);
    let n = v.len();
    let mut p: usize = 0;
    while p < n && ts_le_exec(&c.last_start, &v[p].last_start)
        invariant
            n == v@.len(),
            p <= n,
            forall|k: int| 0 <= k < p ==> !ts_lt(s[k].last_start, c@.last_start),
        decreases n - p,
    {
        assert(s[p as int] == v@[p as int]@);
        p += 1;
    }
    proof {
        if p < n {
            assert(s[p as int] == v@[p as int]@);
            assert(ts_lt(s[p as int].last_start, c@.last_start));
        }
        lemma_insert_desc_at(c@, s, p as int);
    }
    v.insert(p, c);
    proof {
        assert(views_of(v@) =~= s.insert(p as int, c@));
    }
}

/// Where `insert_desc` puts the new record: at the first position whose
/// time is strictly earlier.
proof fn lemma_insert_desc_at(c: ContainerView, s: Seq<ContainerView>, p: int)
    requires
        0 <= p <= s.len(),
        forall|k: int| 0 <= k < p ==> !ts_lt(s[k].last_start, c.last_start),
        p < s.len() ==> ts_lt(s[p].last_start, c.last_start),
    ensures
        insert_desc(c, s) == s.insert(p, c),
    decreases p,
{
    if p == 0 {
        if s.len() == 0 {
            assert(insert_desc(c, s) =~= s.insert(0, c));
        } else {
            assert(insert_desc(c, s) =~= s.insert(0, c));
        }
    } else {
        let t = s.drop_first();
        assert(forall|k: int| 0 <= k < t.len() ==> #[trigger] t[k] == s[k + 1]);
        lemma_insert_desc_at(c, t, p - 1);
        assert(insert_desc(c, s) == seq![s[0]] + t.insert(p - 1, c));
        assert(seq![s[0]] + t.insert(p - 1, c) =~= s.insert(p, c));
    }
}

/// The record whose settings seed the next container: the one with the
/// latest recorded start, the later record winning ties.
pub open spec fn best_rec(s: Seq<ContainerView>) -> Option<ContainerView>
    decreases s.len(),
{
    if s.len() == 0 {
        None
    } else {
        match best_rec(s.drop_last()) {
            None => Some(s.last()),
            Some(b) => if ts_le(b.last_start, s.last().last_start) {
                Some(s.last())
            } else {
                Some(b)
            },
        }
    }
}

/// The defaults offered for a new container: the best record's port and
/// data directory, or port 8090 and no mount for an empty registry.
pub open spec fn spec_default_settings(s: Seq<ContainerView>) -> (u16, Option<DataDirView>) {
    match best_rec(s) {
        None => (8090u16, None),
        Some(b) => (b.port, b.data_dir),
    }
}

impl State {
    /// Get all known containers, most recently started first.
    pub fn get_containers(&self) -> (r: Vec<ContainerInfo>)
        ensures
            views_of(r@) == sort_desc(self@),
            sorted_desc(views_of(r@)),
            views_of(r@).to_multiset() == self@.to_multiset(),
    {
        let n = self.containers.len();
        let mut out: Vec<ContainerInfo> = Vec::new();
        let mut i: usize = 0;
        proof {
            assert(views_of(out@) =~= sort_desc(self@.take(0)));
        }
        while i < n
            invariant
                n == self.containers@.len(),
                i <= n,
                views_of(out@) == sort_desc(self@.take(i as int)),
            decreases n - i,
        {
            assert(self@[i as int] == self.containers@[i as int]@);
            insert_desc_exec(self.containers[i].dup(), &mut out);
            proof {
                assert(self@.take(i + 1).drop_last() =~= self@.take(i as int));
                assert(self@.take(i + 1).last() == self@[i as int]);
            }
            i += 1;
        }
        proof {
            assert(self@.take(n as int) =~= self@);
            lemma_sort_desc(self@);
        }
        out
    }

    /// Get the most recently used container's settings as defaults for a
    /// new container.
    pub fn get_default_settings(&self) -> (r: (u16, Option<DataDirConfig>))
        ensures
            r.0 == spec_default_settings(self@).0,
            opt_dir_view(r.1) == spec_default_settings(self@).1,
    {
        let n = self.containers.len();
        if n == 0 {
            return (8090, None);
        }
        let mut bi: usize = 0;
        let mut i: usize = 1;
        proof {
            assert(self@.take(0) =~= Seq::<ContainerView>::empty());
            assert(self@.take(1).drop_last() =~= self@.take(0));
            assert(self@.take(1).last() == self@[0]);
            assert(self@[0] == self.containers@[0]@);
            assert(best_rec(self@.take(0)) is None);
            assert(best_rec(self@.take(1)) == Some(self@[0]));
        }
        while i < n
            invariant
                n == self.containers@.len(),
                1 <= i <= n,
                bi < i,
                best_rec(self@.take(i as int)) == Some(self@[bi as int]),
            decreases n - i,
        {
            proof {
                assert(self@[i as int] == self.containers@[i as int]@);
                assert(self@[bi as int] == self.containers@[bi as int]@);
                assert(self@.take(i + 1).drop_last() =~= self@.take(i as int));
                assert(self@.take(i + 1).last() == self@[i as int]);
            }
            if ts_le_exec(&self.containers[bi].last_start, &self.containers[i].last_start) {
                bi = i;
            }
            i += 1;
        }
        proof {
            assert(self@.take(n as int) =~= self@);
        }
        let best = &self.containers[bi];
        assert(self@[bi as int] == self.containers@[bi as int]@);
        (best.port, dup_opt_dir(&best.data_dir))
    }
}

/// A field-for-field copy of an optional data directory.
fn dup_opt_dir(o: &Option<DataDirConfig>) -> (r: Option<DataDirConfig>)
    ensures
        r == *o,
{
    match o {
        Some(d) => Some(
            DataDirConfig {
                relative_path: match &d.relative_path {
                    Some(p) => Some(p.clone()),
                    None => None,
                },
                absolute_path: d.absolute_path.clone(),
            },
        ),
        None => None,
    }
}

/// A second record under an existing record's name is refused: after adding
/// `r1` to the empty registry, adding `r2` with the same name but a
/// different id reports a conflict with `r1`, and since a refused add
/// leaves the registry unchanged, it still holds exactly `r1`.
pub proof fn lemma_add_name_conflict(r1: ContainerView, r2: ContainerView)
    requires
        r1.id != r2.id,
        r1.name == r2.name,
    ensures
        spec_add(Seq::<ContainerView>::empty(), r1) == seq![r1],
        conflict_idx(spec_add(Seq::<ContainerView>::empty(), r1), r2) != -1,
        spec_add(Seq::<ContainerView>::empty(), r1)[conflict_idx(
            spec_add(Seq::<ContainerView>::empty(), r1),
            r2,
        )] == r1,
{
    let s0 = Seq::<ContainerView>::empty();
    lemma_idx_of_id(s0, r1.id);
    let s1 = spec_add(s0, r1);
    assert(s1 =~= seq![r1]);
    lemma_conflict_idx(s1, r2);
    assert(s1[0].name == r2.name && s1[0].id != r2.id);
}

/// Removing an id takes it out for good: in a registry without duplicate
/// ids, once the record with `id` is removed the id is absent, so removing
/// it a second time reports it missing.
pub proof fn lemma_remove_twice(s: Seq<ContainerView>, id: Seq<char>)
    requires
        wf_records(s),
        idx_of_id(s, id) != -1,
    ensures
        idx_of_id(s.remove(idx_of_id(s, id)), id) == -1,
{
    lemma_idx_of_id(s, id);
    let i = idx_of_id(s, id);
    let s2 = s.remove(i);
    assert forall|k: int| 0 <= k < s2.len() implies s2[k].id != id by {
        let k0 = if k < i {
            k
        } else {
            k + 1
        };
        assert(s2[k] == s[k0]);
        if k0 < i {
            assert(s[k0].id != s[i].id);
        } else {
            assert(s[i].id != s[k0].id);
        }
    }
    lemma_idx_of_id(s2, id);
}

/// Whether the given records are pairwise distinct in id and name.
fn records_wf(v: &Vec<ContainerInfo>) -> (r: bool)
    ensures
        r == wf_records(views_of(v@)),
{
    let n = v.len();
    let mut i: usize = 0;
    while i < n
        invariant
            n == v@.len(),
            i <= n,
            forall|p: int, q: int|
                0 <= p < q < v@.len() && p < i ==> views_of(v@)[p].id != views_of(v@)[q].id
                    && views_of(v@)[p].name != views_of(v@)[q].name,
        decreases n - i,
    {
        let mut j: usize = i + 1;
        while j < n
            invariant
                n == v@.len(),
                i < j || j == i + 1,
                i < n,
                i + 1 <= j <= n,
                forall|q: int|
                    i < q < j ==> views_of(v@)[i as int].id != views_of(v@)[q].id && views_of(
                        v@,
                    )[i as int].name != views_of(v@)[q].name,
            decreases n - j,
        {
            assert(views_of(v@)[i as int] == v@[i as int]@);
            assert(views_of(v@)[j as int] == v@[j as int]@);
            if crate::strutil::str_eq(v[i].id.as_str(), v[j].id.as_str()) || crate::strutil::str_eq(
                v[i].name.as_str(),
                v[j].name.as_str(),
            ) {
                return false;
            }
            j += 1;
        }
        i += 1;
    }
    true
}

} // verus!

