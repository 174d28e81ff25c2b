//! Task packs: the roles, rounds and finalization steps of a consensus task,
//! and the checks a pack must pass before it is used.
use vstd::prelude::*;
use crate::report::strs;
use crate::text::str_eq;

verus! {

#[derive(Clone, Copy, Debug, PartialEq, Eq, Structural)]
pub enum AttachmentKind {
    Markdown,
    Text,
    SourceFile,
    Diff,
}

pub open spec fn attachment_kind_name(k: AttachmentKind) -> Seq<char> {
    match k {
        AttachmentKind::Markdown => "markdown"@,
        AttachmentKind::Text => "text"@,
        AttachmentKind::SourceFile => "source_file"@,
        AttachmentKind::Diff => "diff"@,
    }
}

impl AttachmentKind {
    /// The kind's name as manifests write it.
    pub fn as_str(&self) -> (r: &'static str)
        ensures
            r@ == attachment_kind_name(*self),
    {
        match self {
            AttachmentKind::Markdown => "markdown",
            AttachmentKind::Text => "text",
            AttachmentKind::SourceFile => "source_file",
            AttachmentKind::Diff => "diff",
        }
    }
}

#[derive(Clone, Copy, Debug, PartialEq, Eq, Structural)]
pub enum ContextProvider {
    PromptOnly,
    RepoDocs,
    SelectedFiles,
    GitDiff,
    GitHistory,
    Prechecks,
}

#[derive(Clone, Copy, Debug, PartialEq, Eq, Structural)]
pub enum PromptTemplate {
    Discover,
    Challenge,
    Verify,
    Judge,
    Analyze,
    Convergence,
}

#[derive(Clone, Copy, Debug, PartialEq, Eq, Structural)]
pub enum RoundMode {
    Discover,
    Challenge,
    Verify,
}

/// A role of a pack; its default weight is held in thousandths.
#[derive(Clone, Debug)]
pub struct TaskPackRole {
    pub id: String,
    pub name: String,
    pub persona: String,
    pub focus: String,
    pub prompt_template: PromptTemplate,
    pub default_weight_permille: u32,
}

/// A role assigned to a plugin; a weight override is held in thousandths.
#[derive(Clone, Debug)]
pub struct TaskAssignment {
    pub role: String,
    pub plugin: String,
    pub weight_override_permille: Option<u32>,
}

#[derive(Clone, Debug)]
pub struct TaskRound {
    pub name: String,
    pub mode: RoundMode,
    pub assignments: Vec<TaskAssignment>,
}

#[derive(Clone, Debug)]
pub struct TaskFinalization {
    pub analyze: Option<TaskAssignment>,
    pub judge: TaskAssignment,
    pub convergence: Option<TaskAssignment>,
    pub structurizer: Option<TaskAssignment>,
    pub autofix: Option<TaskAssignment>,
}

/// A pack's manifest; the quorum is held in thousandths.
#[derive(Clone, Debug)]
pub struct TaskPackManifest {
    pub id: String,
    pub version: String,
    pub title: String,
    pub description: String,
    pub allowed_attachment_kinds: Vec<AttachmentKind>,
    pub context_providers: Vec<ContextProvider>,
    pub roles: Vec<TaskPackRole>,
    pub rounds: Vec<TaskRound>,
    pub quorum_permille: u32,
    pub allow_clarifications: bool,
    pub finalization: TaskFinalization,
}

#[derive(Clone, Debug)]
pub enum TaskPackSource {
    BuiltIn,
    Directory(String),
}

#[derive(Clone, Debug)]
pub struct TaskPack {
    pub manifest: TaskPackManifest,
    pub analyzer_prompt: String,
    pub reviewer_prompt: String,
    pub judge_prompt: String,
    pub schema_json: String,
    pub render_prompt: Option<String>,
    pub source: TaskPackSource,
}

/// Why a pack fails its checks.
#[derive(Clone, Debug, PartialEq, Eq)]
pub enum PackError {
    AttachmentKindNotAllowed { pack: String, kind: AttachmentKind },
    DuplicateRoleIds { pack: String },
    NoRounds { pack: String },
    EmptyRound { pack: String, round: String },
    UnknownRoundRole { pack: String, round: String, role: String },
    UnknownFinalizationRole { pack: String, role: String },
}

pub open spec fn role_ids(roles: Seq<TaskPackRole>) -> Seq<Seq<char>> {
    roles.map_values(|r: TaskPackRole| r.id@)
}

/// Some role of the pack has this id.
pub open spec fn has_role(roles: Seq<TaskPackRole>, id: Seq<char>) -> bool {
    exists|i: int| 0 <= i < roles.len() && (#[trigger] roles[i]).id@ == id
}

/// The finalization assignments that are present, in the order analyze,
/// judge, convergence, structurizer, autofix.
pub open spec fn final_roles(f: TaskFinalization) -> Seq<Seq<char>> {
    let a = match f.analyze {
        Some(x) => seq![x.role@],
        None => seq![],
    };
    let c = match f.convergence {
        Some(x) => seq![x.role@],
        None => seq![],
    };
    let s = match f.structurizer {
        Some(x) => seq![x.role@],
        None => seq![],
    };
    let x = match f.autofix {
        Some(y) => seq![y.role@],
        None => seq![],
    };
    a + seq![f.judge.role@] + c + s + x
}

/// The first round at or after `i` that is empty or names an unknown role.
pub open spec fn first_bad_round(m: TaskPackManifest, i: int) -> Option<int>
    decreases m.rounds@.len() - i,
{
    if i < 0 || i >= m.rounds@.len() {
        None
    } else if m.rounds@[i].assignments@.len() == 0 || exists|j: int|
        0 <= j < m.rounds@[i].assignments@.len() && !has_role(m.roles@, (#[trigger] m.rounds@[i].assignments@[j]).role@) {
        Some(i)
    } else {
        first_bad_round(m, i + 1)
    }
}

/// The first assignment of a round that names an unknown role.
pub open spec fn first_unknown(roles: Seq<TaskPackRole>, a: Seq<TaskAssignment>, j: int) -> Option<int>
    decreases a.len() - j,
{
    if j < 0 || j >= a.len() {
        None
    } else if !has_role(roles, a[j].role@) {
        Some(j)
    } else {
        first_unknown(roles, a, j + 1)
    }
}

pub open spec fn first_unknown_name(roles: Seq<TaskPackRole>, names: Seq<Seq<char>>, j: int) -> Option<int>
    decreases names.len() - j,
{
    if j < 0 || j >= names.len() {
        None
    } else if !has_role(roles, names[j]) {
        Some(j)
    } else {
        first_unknown_name(roles, names, j + 1)
    }
}

/// What checking a pack gives: duplicate role ids first, then a missing
/// round, then the first bad round (empty, or its first unknown role), then
/// the first unknown finalization role.
pub open spec fn validate_spec(p: TaskPack) -> Result<(), PackError> {
    let m = p.manifest;
    let pack = m.id;
    if !role_ids(m.roles@).no_duplicates() {
        Err(PackError::DuplicateRoleIds { pack })
    } else if m.rounds@.len() == 0 {
        Err(PackError::NoRounds { pack })
    } else {
        match first_bad_round(m, 0) {
            Some(i) => {
                let r = m.rounds@[i];
                if r.assignments@.len() == 0 {
                    Err(PackError::EmptyRound { pack, round: r.name })
                } else {
                    let j = first_unknown(m.roles@, r.assignments@, 0).unwrap();
                    Err(PackError::UnknownRoundRole { pack, round: r.name, role: r.assignments@[j].role })
                }
            },
            None => match first_unknown_name(m.roles@, final_roles(m.finalization), 0) {
                Some(j) => Err(PackError::UnknownFinalizationRole { pack, role: final_role_string(m.finalization, j) }),
                None => Ok(()),
            },
        }
    }
}

/// The role string of the `j`th present finalization assignment.
pub open spec fn final_role_string(f: TaskFinalization, j: int) -> String {
    final_assignments(f)[j].role
}

pub open spec fn final_assignments(f: TaskFinalization) -> Seq<TaskAssignment> {
    let a = match f.analyze {
        Some(x) => seq![x],
        None => seq![],
    };
    let c = match f.convergence {
        Some(x) => seq![x],
        None => seq![],
    };
    let s = match f.structurizer {
        Some(x) => seq![x],
        None => seq![],
    };
    let x = match f.autofix {
        Some(y) => seq![y],
        None => seq![],
    };
    a + seq![f.judge] + c + s + x
}

fn role_known(roles: &Vec<TaskPackRole>, id: &String) -> (r: bool)
    ensures
        r == has_role(roles@, id@),
{
    let mut i: usize = 0;
    while i < roles.len()
        invariant
            i <= roles@.len(),
            forall|k: int| 0 <= k < i ==> roles@[k].id@ != id@,
        decreases roles.len() - i,
    {
        if str_eq(roles[i].id.as_str(), id.as_str()) {
            return true;
        }
        i += 1;
    }
    false
}

fn role_ids_distinct(roles: &Vec<TaskPackRole>) -> (r: bool)
    ensures
        r == role_ids(roles@).no_duplicates(),
{
    let ghost ids = role_ids(roles@);
    let mut i: usize = 0;
    while i < roles.len()
        invariant
            i <= roles@.len(),
            ids == role_ids(roles@),
            forall|a: int, b: int| 0 <= a < i && 0 <= b < roles@.len() && a != b ==> ids[a] != ids[b],
        decreases roles.len() - i,
    {
        let mut j: usize = 0;
        while j < roles.len()
            invariant
                i < roles@.len(),
                j <= roles@.len(),
                ids == role_ids(roles@),
                forall|a: int, b: int| 0 <= a < i && 0 <= b < roles@.len() && a != b ==> ids[a] != ids[b],
                forall|b: int| 0 <= b < j && b != i ==> ids[i as int] != ids[b],
            decreases roles.len() - j,
        {
            if j != i && str_eq(roles[i].id.as_str(), roles[j].id.as_str()) {
                assert(ids[i as int] == ids[j as int]);
                return false;
            }
            j += 1;
        }
        i += 1;
    }
    true
}

fn first_unknown_exec(roles: &Vec<TaskPackRole>, a: &Vec<TaskAssignment>) -> (r: Option<usize>)
    ensures
        r is None ==> first_unknown(roles@, a@, 0) is None,
        r is Some ==> first_unknown(roles@, a@, 0) == Some(r.unwrap() as int) && r.unwrap() < a@.len(),
{
    let mut j: usize = 0;
    while j < a.len()
        invariant
            j <= a@.len(),
            first_unknown(roles@, a@, 0) == first_unknown(roles@, a@, j as int),
        decreases a.len() - j,
    {
        if !role_known(roles, &a[j].role) {
            return Some(j);
        }
        j += 1;
    }
    None
}

proof fn lemma_first_unknown_none(roles: Seq<TaskPackRole>, a: Seq<TaskAssignment>, j: int)
    requires
        0 <= j,
        first_unknown(roles, a, j) is None,
    ensures
        forall|k: int| j <= k < a.len() ==> has_role(roles, (#[trigger] a[k]).role@),
    decreases a.len() - j,
{
    if j < a.len() {
        lemma_first_unknown_none(roles, a, j + 1);
    }
}

proof fn lemma_first_unknown_found(roles: Seq<TaskPackRole>, a: Seq<TaskAssignment>, i: int, j: int)
    requires
        0 <= i,
        first_unknown(roles, a, i) == Some(j),
    ensures
        i <= j < a.len(),
        !has_role(roles, a[j].role@),
    decreases a.len() - i,
{
    if i < a.len() && has_role(roles, a[i].role@) {
        lemma_first_unknown_found(roles, a, i + 1, j);
    }
}

proof fn lemma_first_unknown_from(roles: Seq<TaskPackRole>, a: Seq<TaskAssignment>, i: int, j: int)
    requires
        0 <= i <= j < a.len(),
        !has_role(roles, a[j].role@),
    ensures
        first_unknown(roles, a, i) is Some,
    decreases j - i,
{
    if i < j && has_role(roles, a[i].role@) {
        lemma_first_unknown_from(roles, a, i + 1, j);
    }
}

fn present_assignments(f: &TaskFinalization) -> (r: Vec<&TaskAssignment>)
    ensures
        r@.len() == final_assignments(*f).len(),
        forall|k: int| 0 <= k < r@.len() ==> *(#[trigger] r@[k]) == final_assignments(*f)[k],
{
    let mut v: Vec<&TaskAssignment> = Vec::new();
    match &f.analyze {
        Some(x) => v.push(x),
        None => {},
    }
    v.push(&f.judge);
    match &f.convergence {
        Some(x) => v.push(x),
        None => {},
    }
    match &f.structurizer {
        Some(x) => v.push(x),
        None => {},
    }
    match &f.autofix {
        Some(x) => v.push(x),
        None => {},
    }
    v
}

impl TaskPack {
    pub fn id(&self) -> (r: &str)
        ensures
            r@ == self.manifest.id@,
    {
        self.manifest.id.as_str()
    }

    /// Accepts `kind` when the pack lists no kinds or lists this one.
    pub fn validate_attachment_kind(&self, kind: &AttachmentKind) -> (r: Result<(), PackError>)
        ensures
            r is Ok <==> (self.manifest.allowed_attachment_kinds@.len() == 0
                || self.manifest.allowed_attachment_kinds@.contains(*kind)),
            r is Err ==> r == Err::<(), PackError>(PackError::AttachmentKindNotAllowed { pack: self.manifest.id, kind: *kind }),
    {
        if self.manifest.allowed_attachment_kinds.len() == 0 {
            return Ok(());
        }
        let mut i: usize = 0;
        while i < self.manifest.allowed_attachment_kinds.len()
            invariant
                i <= self.manifest.allowed_attachment_kinds@.len(),
                forall|k: int| 0 <= k < i ==> self.manifest.allowed_attachment_kinds@[k] != *kind,
            decreases self.manifest.allowed_attachment_kinds.len() - i,
        {
            if self.manifest.allowed_attachment_kinds[i] == *kind {
                assert(self.manifest.allowed_attachment_kinds@[i as int] == *kind);
                assert(self.manifest.allowed_attachment_kinds@.contains(*kind));
                return Ok(());
            }
            i += 1;
        }
        Err(PackError::AttachmentKindNotAllowed { pack: self.manifest.id.clone(), kind: *kind })
    }

    /// Checks that role ids are distinct, there is a round, every round has
    /// an assignment, and every assignment names a role of the pack.
    pub fn validate_schema(&self) -> (r: Result<(), PackError>)
        ensures
            r == validate_spec(*self),
    {
        let m = &self.manifest;
        if !role_ids_distinct(&m.roles) {
            return Err(PackError::DuplicateRoleIds { pack: m.id.clone() });
        }
        if m.rounds.len() == 0 {
            return Err(PackError::NoRounds { pack: m.id.clone() });
        }
        let mut i: usize = 0;
        while i < m.rounds.len()
            invariant
                i <= m.rounds@.len(),
                *m == self.manifest,
                role_ids(self.manifest.roles@).no_duplicates(),
                self.manifest.rounds@.len() > 0,
                first_bad_round(*m, 0) == first_bad_round(*m, i as int),
            decreases m.rounds.len() - i,
        {
            let round = &m.rounds[i];
            assert(*round == m.rounds@[i as int]);
            if round.assignments.len() == 0 {
                assert(first_bad_round(*m, i as int) == Some(i as int));
                let e = PackError::EmptyRound { pack: m.id.clone(), round: round.name.clone() };
                assert(role_ids(self.manifest.roles@).no_duplicates());
                assert(self.manifest.rounds@.len() != 0);
                assert(first_bad_round(self.manifest, 0) == Some(i as int));
                assert(e == PackError::EmptyRound { pack: self.manifest.id, round: self.manifest.rounds@[i as int].name });
                assert(validate_spec(*self) == Err::<(), PackError>(e));
                return Err(e);
            }
            match first_unknown_exec(&m.roles, &round.assignments) {
                Some(j) => {
                    proof {
                        lemma_first_unknown_found(m.roles@, round.assignments@, 0, j as int);
                    }
                    assert(!has_role(m.roles@, round.assignments@[j as int].role@));
                    assert(first_bad_round(*m, i as int) == Some(i as int));
                    return Err(PackError::UnknownRoundRole {
                        pack: m.id.clone(),
                        round: round.name.clone(),
                        role: round.assignments[j].role.clone(),
                    });
                },
                None => {
                    proof {
                        lemma_first_unknown_none(m.roles@, round.assignments@, 0);
                    }
                },
            }
            i += 1;
        }
        let fin = present_assignments(&m.finalization);
        assert(final_roles(m.finalization) =~= final_assignments(m.finalization).map_values(|a: TaskAssignment| a.role@));
        let mut j: usize = 0;
        while j < fin.len()
            invariant
                j <= fin@.len(),
                *m == self.manifest,
                role_ids(self.manifest.roles@).no_duplicates(),
                self.manifest.rounds@.len() > 0,
                first_bad_round(*m, 0) is None,
                fin@.len() == final_assignments(m.finalization).len(),
                forall|k: int| 0 <= k < fin@.len() ==> *(#[trigger] fin@[k]) == final_assignments(m.finalization)[k],
                final_roles(m.finalization) == final_assignments(m.finalization).map_values(|a: TaskAssignment| a.role@),
                first_unknown_name(m.roles@, final_roles(m.finalization), 0) == first_unknown_name(
                    m.roles@,
                    final_roles(m.finalization),
                    j as int,
                ),
            decreases fin.len() - j,
        {
            assert(final_roles(m.finalization)[j as int] == fin@[j as int].role@);
            if !role_known(&m.roles, &fin[j].role) {
                assert(first_unknown_name(m.roles@, final_roles(m.finalization), j as int) == Some(j as int));
                let e = PackError::UnknownFinalizationRole { pack: m.id.clone(), role: fin[j].role.clone() };
                assert(final_role_string(m.finalization, j as int) == fin@[j as int].role);
                assert(validate_spec(*self) == Err::<(), PackError>(e));
                return Err(e);
            }
            j += 1;
        }
        Ok(())
    }
}

} // verus!
