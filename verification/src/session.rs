//! Conversations that can be taken up again.
//!
//! A session holds the turns of a conversation: what was said, by which chain
//! of runs it was answered, which files that touched and what it cost.
use vstd::prelude::*;

use crate::agent::context::estimate_tokens;
use crate::agent::context;
use crate::paths;
use crate::text;

verus! {

/// The name of the directory that holds the sessions.
pub const SESSIONS_DIR_NAME: &'static str = "sessions";

/// The extension of a session's file.
pub const SESSION_FILE_EXT: &'static str = "json";

/// What can go wrong with a session, with the cause in words.
#[derive(Debug, Clone, PartialEq, Eq)]
pub enum SessionError {
    HomeDirNotFound(String),
    Read(String),
    Write(String),
    Json(String),
    NotFound(String),
}

impl SessionError {
    /// The message of an error.
    pub open spec fn text(self) -> Seq<char> {
        match self {
            SessionError::HomeDirNotFound(e) => "홈 디렉터리를 찾을 수 없습니다: "@ + e@,
            SessionError::Read(e) => "세션 파일 읽기 실패: "@ + e@,
            SessionError::Write(e) => "세션 파일 쓰기 실패: "@ + e@,
            SessionError::Json(e) => "JSON 직렬화 실패: "@ + e@,
            SessionError::NotFound(id) => "세션 '"@ + id@ + "' 을(를) 찾을 수 없습니다"@,
        }
    }

    /// The message of the error.
    pub fn message(&self) -> (r: String)
        ensures
            r@ == self.text(),
    {
        match self {
            SessionError::HomeDirNotFound(e) => "홈 디렉터리를 찾을 수 없습니다: ".to_string().concat(e),
            SessionError::Read(e) => "세션 파일 읽기 실패: ".to_string().concat(e),
            SessionError::Write(e) => "세션 파일 쓰기 실패: ".to_string().concat(e),
            SessionError::Json(e) => "JSON 직렬화 실패: ".to_string().concat(e),
            SessionError::NotFound(id) => "세션 '".to_string().concat(id).concat(
                "' 을(를) 찾을 수 없습니다",
            ),
        }
    }
}

/// The directory of the sessions, below the directory of the settings.
pub fn sessions_dir(config_dir: &str) -> (r: String)
    ensures
        r@ == paths::below(config_dir@, SESSIONS_DIR_NAME@),
{
    paths::join(config_dir, SESSIONS_DIR_NAME)
}

/// The file of a session.
pub fn session_path(config_dir: &str, id: &str) -> (r: String)
    ensures
        r@ == paths::below(
            paths::below(config_dir@, SESSIONS_DIR_NAME@),
            id@ + "."@ + SESSION_FILE_EXT@,
        ),
{
    let name = id.to_string().concat(".").concat(SESSION_FILE_EXT);
    paths::join(&sessions_dir(config_dir), &name)
}

/// A turn of a conversation: a prompt and its answer.
#[derive(Debug, Clone, PartialEq, Eq)]
pub struct TurnRecord {
    pub turn: u32,
    pub user: String,
    pub assistant: String,
    pub chain_id: String,
    pub files_touched: Vec<String>,
    pub input_tokens: u64,
    pub output_tokens: u64,
    pub model: String,
}

/// A turn of a conversation, with its texts as characters.
pub struct TurnModel {
    pub turn: u32,
    pub user: Seq<char>,
    pub assistant: Seq<char>,
    pub chain_id: Seq<char>,
    pub files_touched: Seq<Seq<char>>,
    pub input_tokens: u64,
    pub output_tokens: u64,
    pub model: Seq<char>,
}

impl View for TurnRecord {
    type V = TurnModel;

    open spec fn view(&self) -> TurnModel {
        TurnModel {
            turn: self.turn,
            user: self.user@,
            assistant: self.assistant@,
            chain_id: self.chain_id@,
            files_touched: text::views(self.files_touched@),
            input_tokens: self.input_tokens,
            output_tokens: self.output_tokens,
            model: self.model@,
        }
    }
}

/// The views of a list of turns.
pub open spec fn turn_views(v: Seq<TurnRecord>) -> Seq<TurnModel> {
    v.map_values(|t: TurnRecord| t@)
}

/// A session.
#[derive(Debug, PartialEq, Eq)]
pub struct Session {
    pub session_id: String,
    pub created_at: String,
    pub updated_at: String,
    pub endpoint: String,
    pub model: String,
    pub system_prompt_at: String,
    pub turns: Vec<TurnRecord>,
}

/// A session, with its texts as characters.
pub struct SessionModel {
    pub session_id: Seq<char>,
    pub created_at: Seq<char>,
    pub updated_at: Seq<char>,
    pub endpoint: Seq<char>,
    pub model: Seq<char>,
    pub system_prompt_at: Seq<char>,
    pub turns: Seq<TurnModel>,
}

impl View for Session {
    type V = SessionModel;

    open spec fn view(&self) -> SessionModel {
        SessionModel {
            session_id: self.session_id@,
            created_at: self.created_at@,
            updated_at: self.updated_at@,
            endpoint: self.endpoint@,
            model: self.model@,
            system_prompt_at: self.system_prompt_at@,
            turns: turn_views(self.turns@),
        }
    }
}

/// A fresh session.
pub open spec fn fresh_session(
    id: Seq<char>,
    endpoint: Seq<char>,
    model: Seq<char>,
    now: Seq<char>,
) -> SessionModel {
    SessionModel {
        session_id: id,
        created_at: now,
        updated_at: now,
        endpoint,
        model,
        system_prompt_at: now,
        turns: Seq::empty(),
    }
}

/// A session with one more turn.
pub open spec fn with_turn(s: SessionModel, turn: TurnModel, now: Seq<char>) -> SessionModel {
    SessionModel { turns: s.turns.push(turn), updated_at: now, ..s }
}

/// A turn as a part of the conversation so far.
pub open spec fn turn_text(t: TurnModel) -> Seq<char> {
    "[사용자]\n"@ + t.user + "\n\n"@ + "[모델]\n"@ + t.assistant + "\n\n"@
}

/// The conversation so far.
pub open spec fn context_of(turns: Seq<TurnModel>) -> Seq<char>
    decreases turns.len(),
{
    if turns.len() == 0 {
        Seq::empty()
    } else {
        context_of(turns.drop_last()) + turn_text(turns.last())
    }
}

/// The tokens that the turns have taken in.
pub open spec fn input_of(turns: Seq<TurnModel>) -> nat
    decreases turns.len(),
{
    if turns.len() == 0 {
        0
    } else {
        input_of(turns.drop_last()) + turns.last().input_tokens as nat
    }
}

/// The tokens that the turns have put out.
pub open spec fn output_of(turns: Seq<TurnModel>) -> nat
    decreases turns.len(),
{
    if turns.len() == 0 {
        0
    } else {
        output_of(turns.drop_last()) + turns.last().output_tokens as nat
    }
}

/// The turns that a model has answered.
pub open spec fn turns_by(turns: Seq<TurnModel>, model: Seq<char>) -> Seq<TurnModel>
    decreases turns.len(),
{
    if turns.len() == 0 {
        Seq::empty()
    } else if turns.last().model == model {
        turns_by(turns.drop_last(), model).push(turns.last())
    } else {
        turns_by(turns.drop_last(), model)
    }
}

/// The models of the turns, in the order of their first turn. A turn that no
/// model answered counts for none.
pub open spec fn models_of(turns: Seq<TurnModel>) -> Seq<Seq<char>>
    decreases turns.len(),
{
    if turns.len() == 0 {
        Seq::empty()
    } else {
        let before = models_of(turns.drop_last());
        let m = turns.last().model;
        if m.len() == 0 || before.contains(m) {
            before
        } else {
            before.push(m)
        }
    }
}

/// A turn as a part of an exported conversation.
pub open spec fn exported_turn(t: TurnModel) -> Seq<char> {
    "## User\n\n"@ + t.user + "\n\n## Assistant\n\n"@ + t.assistant + "\n\n"@
}

/// The turns of an exported conversation.
pub open spec fn exported_turns(turns: Seq<TurnModel>) -> Seq<char>
    decreases turns.len(),
{
    if turns.len() == 0 {
        Seq::empty()
    } else {
        exported_turns(turns.drop_last()) + exported_turn(turns.last())
    }
}

/// A conversation in Markdown.
pub open spec fn exported(s: SessionModel) -> Seq<char> {
    "# Session "@ + s.session_id + "\n\n- endpoint: "@ + s.endpoint + "\n- model: "@ + s.model
        + "\n- created: "@ + s.created_at + "\n- updated: "@ + s.updated_at + "\n\n"@
        + exported_turns(s.turns)
}

/// Adds to a sum, up to the largest machine number.
fn plus(a: u64, b: u64) -> (r: u64)
    ensures
        forall|n: nat| a == context::capped(n) ==> r == #[trigger] context::capped(n + b as nat),
{
    if a > u64::MAX - b {
        u64::MAX
    } else {
        a + b
    }
}

/// What a model has taken in and put out.
#[derive(Debug, Clone, PartialEq, Eq)]
pub struct ModelUsage {
    pub model: String,
    pub input_tokens: u64,
    pub output_tokens: u64,
}

/// What a model has taken in and put out.
pub struct UsageModel {
    pub model: Seq<char>,
    pub input_tokens: u64,
    pub output_tokens: u64,
}

impl View for ModelUsage {
    type V = UsageModel;

    open spec fn view(&self) -> UsageModel {
        UsageModel {
            model: self.model@,
            input_tokens: self.input_tokens,
            output_tokens: self.output_tokens,
        }
    }
}

/// The views of a list of usages.
pub open spec fn usage_views(v: Seq<ModelUsage>) -> Seq<UsageModel> {
    v.map_values(|u: ModelUsage| u@)
}

/// What each model has taken in and put out, in the order of their first turn.
pub open spec fn usage_of(turns: Seq<TurnModel>) -> Seq<UsageModel> {
    models_of(turns).map_values(
        |m: Seq<char>|
            UsageModel {
                model: m,
                input_tokens: context::capped(input_of(turns_by(turns, m))),
                output_tokens: context::capped(output_of(turns_by(turns, m))),
            },
    )
}

/// A copy of a list of texts.
pub fn clone_texts(v: &[String]) -> (r: Vec<String>)
    ensures
        text::views(r@) == text::views(v@),
{
    let mut out: Vec<String> = Vec::new();
    let mut i: usize = 0;
    while i < v.len()
        invariant
            i <= v.len(),
            out@.len() == i,
            forall|k: int| 0 <= k < i ==> (#[trigger] out@[k])@ == v@[k]@,
        decreases v.len() - i,
    {
        out.push(v[i].clone());
        i = i + 1;
    }
    proof {
        assert(text::views(out@) =~= text::views(v@));
    }
    out
}

/// A copy of a list of turns.
fn clone_turns(v: &[TurnRecord]) -> (r: Vec<TurnRecord>)
    ensures
        turn_views(r@) == turn_views(v@),
{
    let mut out: Vec<TurnRecord> = Vec::new();
    let mut i: usize = 0;
    while i < v.len()
        invariant
            i <= v.len(),
            out@.len() == i,
            forall|k: int| 0 <= k < i ==> (#[trigger] out@[k])@ == v@[k]@,
        decreases v.len() - i,
    {
        let t = &v[i];
        out.push(
            TurnRecord {
                turn: t.turn,
                user: t.user.clone(),
                assistant: t.assistant.clone(),
                chain_id: t.chain_id.clone(),
                files_touched: clone_texts(&t.files_touched),
                input_tokens: t.input_tokens,
                output_tokens: t.output_tokens,
                model: t.model.clone(),
            },
        );
        i = i + 1;
    }
    proof {
        assert(turn_views(out@) =~= turn_views(v@));
    }
    out
}

impl Clone for Session {
    fn clone(&self) -> (r: Self)
        ensures
            r@ == self@,
    {
        Session {
            session_id: self.session_id.clone(),
            created_at: self.created_at.clone(),
            updated_at: self.updated_at.clone(),
            endpoint: self.endpoint.clone(),
            model: self.model.clone(),
            system_prompt_at: self.system_prompt_at.clone(),
            turns: clone_turns(&self.turns),
        }
    }
}

impl Session {
    /// A fresh session, made at the given time.
    pub fn new(session_id: &str, endpoint: &str, model: &str, now: &str) -> (r: Self)
        ensures
            r@ == fresh_session(session_id@, endpoint@, model@, now@),
    {
        let r = Session {
            session_id: session_id.to_string(),
            created_at: now.to_string(),
            updated_at: now.to_string(),
            endpoint: endpoint.to_string(),
            model: model.to_string(),
            system_prompt_at: now.to_string(),
            turns: Vec::new(),
        };
        proof {
            assert(r@.turns =~= Seq::empty());
        }
        r
    }

    /// Adds a turn, at the given time.
    pub fn push_turn(&mut self, turn: TurnRecord, now: &str)
        ensures
            final(self)@ == with_turn(old(self)@, turn@, now@),
    {
        self.turns.push(turn);
        self.updated_at = now.to_string();
        proof {
            assert(self@.turns =~= old(self)@.turns.push(turn@));
        }
    }

    /// The conversation so far, as a part of the next prompt.
    pub fn conversation_context(&self) -> (r: String)
        ensures
            r@ == context_of(self@.turns),
    {
        let ghost model = turn_views(self.turns@);
        let mut out = String::new();
        let mut i: usize = 0;
        proof {
            assert(model.take(0) =~= Seq::empty());
        }
        while i < self.turns.len()
            invariant
                i <= self.turns.len(),
                model == turn_views(self.turns@),
                out@ == context_of(model.take(i as int)),
            decreases self.turns.len() - i,
        {
            let ghost before = out@;
            proof {
                assert(model.take(i + 1).drop_last() =~= model.take(i as int));
                assert(model.take(i + 1).last() == self.turns@[i as int]@);
            }
            out.append("[사용자]\n");
            out.append(&self.turns[i].user);
            out.append("\n\n");
            out.append("[모델]\n");
            out.append(&self.turns[i].assistant);
            out.append("\n\n");
            proof {
                assert(out@ =~= before + turn_text(self.turns@[i as int]@));
            }
            i = i + 1;
        }
        proof {
            assert(model.take(model.len() as int) =~= model);
        }
        out
    }

    /// The tokens that the session has taken in.
    pub fn total_input_tokens(&self) -> (r: u64)
        ensures
            r == context::capped(input_of(self@.turns)),
    {
        let ghost model = turn_views(self.turns@);
        let mut sum: u64 = 0;
        let mut i: usize = 0;
        proof {
            assert(model.take(0) =~= Seq::empty());
        }
        while i < self.turns.len()
            invariant
                i <= self.turns.len(),
                model == turn_views(self.turns@),
                sum == context::capped(input_of(model.take(i as int))),
            decreases self.turns.len() - i,
        {
            proof {
                assert(model.take(i + 1).drop_last() =~= model.take(i as int));
                assert(model.take(i + 1).last() == self.turns@[i as int]@);
            }
            sum = plus(sum, self.turns[i].input_tokens);
            i = i + 1;
        }
        proof {
            assert(model.take(model.len() as int) =~= model);
        }
        sum
    }

    /// The tokens that the session has put out.
    pub fn total_output_tokens(&self) -> (r: u64)
        ensures
            r == context::capped(output_of(self@.turns)),
    {
        let ghost model = turn_views(self.turns@);
        let mut sum: u64 = 0;
        let mut i: usize = 0;
        proof {
            assert(model.take(0) =~= Seq::empty());
        }
        while i < self.turns.len()
            invariant
                i <= self.turns.len(),
                model == turn_views(self.turns@),
                sum == context::capped(output_of(model.take(i as int))),
            decreases self.turns.len() - i,
        {
            proof {
                assert(model.take(i + 1).drop_last() =~= model.take(i as int));
                assert(model.take(i + 1).last() == self.turns@[i as int]@);
            }
            sum = plus(sum, self.turns[i].output_tokens);
            i = i + 1;
        }
        proof {
            assert(model.take(model.len() as int) =~= model);
        }
        sum
    }

    /// What each model has taken in and put out, in the order of their first
    /// turn.
    pub fn per_model_usage(&self) -> (r: Vec<ModelUsage>)
        ensures
            usage_views(r@) == usage_of(self@.turns),
    {
        let ghost model = turn_views(self.turns@);
        let mut out: Vec<ModelUsage> = Vec::new();
        let mut i: usize = 0;
        proof {
            assert(model.take(0) =~= Seq::empty());
            assert(usage_views(out@) =~= usage_of(model.take(0)));
        }
        while i < self.turns.len()
            invariant
                i <= self.turns.len(),
                model == turn_views(self.turns@),
                usage_views(out@) == usage_of(model.take(i as int)),
            decreases self.turns.len() - i,
        {
            let ghost done = model.take(i as int);
            let ghost next = model.take(i + 1);
            let t = &self.turns[i];
            proof {
                assert(next.drop_last() =~= done);
                assert(next.last() == t@);
                assert(usage_views(out@).len() == models_of(done).len());
            }
            let ghost before = usage_views(out@);
            let mut at: usize = 0;
            while at < out.len() && !text::str_eq(&out[at].model, &t.model)
                invariant
                    at <= out.len(),
                    before == usage_views(out@),
                    before == usage_of(done),
                    before.len() == out@.len(),
                    models_of(done).len() == before.len(),
                    forall|k: int| 0 <= k < at ==> models_of(done)[k] != t.model@,
                decreases out.len() - at,
            {
                proof {
                    assert(before[at as int].model == models_of(done)[at as int]);
                }
                at = at + 1;
            }
            proof {
                lemma_models(done);
                assert(forall|k: int|
                    0 <= k < models_of(done).len() ==> before[k].model == #[trigger] models_of(
                        done,
                    )[k]);
            }
            if t.model.as_str().is_empty() {
                proof {
                    if at < out@.len() {
                        assert(models_of(done)[at as int].len() > 0);
                    }
                    assert forall|k: int| 0 <= k < models_of(done).len() implies usage_of(next)[k]
                        == before[k] by {
                        assert(models_of(done)[k].len() > 0);
                    }
                    assert(usage_views(out@) =~= usage_of(next));
                }
            } else if at < out.len() {
                proof {
                    assert(models_of(done)[at as int] == t.model@);
                    assert(models_of(done).contains(t.model@));
                }
                let old_usage = &out[at];
                let grown = ModelUsage {
                    model: t.model.clone(),
                    input_tokens: plus(old_usage.input_tokens, t.input_tokens),
                    output_tokens: plus(old_usage.output_tokens, t.output_tokens),
                };
                out.set(at, grown);
                proof {
                    let m = t.model@;
                    assert(turns_by(next, m) == turns_by(done, m).push(t@));
                    assert(turns_by(next, m).drop_last() =~= turns_by(done, m));
                    assert(before[at as int].input_tokens == context::capped(
                        input_of(turns_by(done, m)),
                    ));
                    assert forall|k: int| 0 <= k < models_of(done).len() implies usage_of(next)[k]
                        == usage_views(out@)[k] by {
                        if k != at {
                            assert(models_of(done)[k] != models_of(done)[at as int]);
                        }
                    }
                    assert(usage_views(out@) =~= usage_of(next));
                }
            } else {
                proof {
                    assert(!models_of(done).contains(t.model@));
                    lemma_no_turns(done, t.model@);
                    let m = t.model@;
                    assert(turns_by(next, m) =~= seq![t@]);
                    assert(seq![t@].drop_last() =~= Seq::empty());
                    assert(input_of(seq![t@]) == t.input_tokens) by {
                        assert(input_of(seq![t@].drop_last()) == 0);
                    }
                    assert(output_of(seq![t@]) == t.output_tokens) by {
                        assert(output_of(seq![t@].drop_last()) == 0);
                    }
                }
                out.push(
                    ModelUsage {
                        model: t.model.clone(),
                        input_tokens: t.input_tokens,
                        output_tokens: t.output_tokens,
                    },
                );
                proof {
                    assert(models_of(next) == models_of(done).push(t.model@));
                    assert forall|k: int| 0 <= k < models_of(next).len() implies usage_of(next)[k]
                        == usage_views(out@)[k] by {
                        if k < models_of(done).len() {
                            assert(models_of(done)[k] != t.model@);
                            assert(usage_views(out@)[k] == before[k]);
                        }
                    }
                    assert(usage_views(out@) =~= usage_of(next));
                }
            }
            i = i + 1;
        }
        proof {
            assert(model.take(model.len() as int) =~= model);
        }
        out
    }

    /// An estimate of the tokens that the conversation so far takes.
    pub fn estimate_tokens(&self) -> (r: u64)
        ensures
            r == context::tokens(context_of(self@.turns)),
    {
        estimate_tokens(&self.conversation_context())
    }

    /// A copy of the session under a new id, made at the given time.
    pub fn fork(&self, new_id: &str, now: &str) -> (r: Self)
        ensures
            r@ == (SessionModel {
                session_id: new_id@,
                created_at: now@,
                updated_at: now@,
                ..self@
            }),
    {
        Session {
            session_id: new_id.to_string(),
            created_at: now.to_string(),
            updated_at: now.to_string(),
            endpoint: self.endpoint.clone(),
            model: self.model.clone(),
            system_prompt_at: self.system_prompt_at.clone(),
            turns: clone_turns(&self.turns),
        }
    }

    /// The conversation in Markdown.
    pub fn export_markdown(&self) -> (r: String)
        ensures
            r@ == exported(self@),
    {
        let ghost model = turn_views(self.turns@);
        let mut body = String::new();
        let mut i: usize = 0;
        proof {
            assert(model.take(0) =~= Seq::empty());
        }
        while i < self.turns.len()
            invariant
                i <= self.turns.len(),
                model == turn_views(self.turns@),
                body@ == exported_turns(model.take(i as int)),
            decreases self.turns.len() - i,
        {
            let ghost before = body@;
            proof {
                assert(model.take(i + 1).drop_last() =~= model.take(i as int));
                assert(model.take(i + 1).last() == self.turns@[i as int]@);
            }
            body.append("## User\n\n");
            body.append(&self.turns[i].user);
            body.append("\n\n## Assistant\n\n");
            body.append(&self.turns[i].assistant);
            body.append("\n\n");
            proof {
                assert(body@ =~= before + exported_turn(self.turns@[i as int]@));
            }
            i = i + 1;
        }
        proof {
            assert(model.take(model.len() as int) =~= model);
        }
        let mut out = "# Session ".to_string();
        out.append(&self.session_id);
        out.append("\n\n- endpoint: ");
        out.append(&self.endpoint);
        out.append("\n- model: ");
        out.append(&self.model);
        out.append("\n- created: ");
        out.append(&self.created_at);
        out.append("\n- updated: ");
        out.append(&self.updated_at);
        out.append("\n\n");
        out.append(&body);
        out
    }
}

/// The models of the turns are named and differ from each other.
proof fn lemma_models(turns: Seq<TurnModel>)
    ensures
        forall|k: int| 0 <= k < models_of(turns).len() ==> (#[trigger] models_of(turns)[k]).len() > 0,
        forall|j: int, k: int|
            0 <= j < k < models_of(turns).len() ==> #[trigger] models_of(turns)[j]
                != #[trigger] models_of(turns)[k],
    decreases turns.len(),
{
    if turns.len() > 0 {
        lemma_models(turns.drop_last());
        let out = models_of(turns);
        let before = models_of(turns.drop_last());
        let n = before.len() as int;
        assert forall|k: int| 0 <= k < out.len() implies (#[trigger] out[k]).len() > 0 by {
            if k < n {
                assert(out[k] == before[k]);
            }
        }
        assert forall|j: int, k: int| 0 <= j < k < out.len() implies #[trigger] out[j]
            != #[trigger] out[k] by {
            assert(out[j] == before[j]);
            if k < n {
                assert(out[k] == before[k]);
            }
        }
    }
}

/// A model that is not among those of the turns has answered none of them.
proof fn lemma_no_turns(turns: Seq<TurnModel>, model: Seq<char>)
    requires
        model.len() > 0,
        !models_of(turns).contains(model),
    ensures
        turns_by(turns, model) == Seq::<TurnModel>::empty(),
    decreases turns.len(),
{
    if turns.len() > 0 {
        let before = models_of(turns.drop_last());
        let m = turns.last().model;
        if before.contains(model) {
            let k = choose|k: int| 0 <= k < before.len() && before[k] == model;
            assert(models_of(turns)[k] == model);
        }
        lemma_no_turns(turns.drop_last(), model);
        if m == model {
            assert(before.push(m)[before.len() as int] == model);
        }
    }
}

// ---------------------------------------------------------------------------
// Lists of sessions
// ---------------------------------------------------------------------------

/// A session in a list.
#[derive(Debug, Clone, PartialEq, Eq)]
pub struct SessionMeta {
    pub id: String,
    pub created_at: String,
    pub updated_at: String,
    pub turns: usize,
    pub model: String,
}

/// What a list shows of a session with the given id.
pub fn meta_of(id: &str, session: &Session) -> (r: SessionMeta)
    ensures
        r.id@ == id@,
        r.created_at@ == session@.created_at,
        r.updated_at@ == session@.updated_at,
        r.turns == session@.turns.len(),
        r.model@ == session@.model,
{
    SessionMeta {
        id: id.to_string(),
        created_at: session.created_at.clone(),
        updated_at: session.updated_at.clone(),
        turns: session.turns.len(),
        model: session.model.clone(),
    }
}

/// Where a session goes in a list with the newest first: behind all that are
/// not older.
pub open spec fn place_of(list: Seq<SessionMeta>, m: SessionMeta) -> int
    decreases list.len(),
{
    if list.len() == 0 || !text::before(list.last().updated_at@, m.updated_at@) {
        list.len() as int
    } else {
        place_of(list.drop_last(), m)
    }
}

/// Sessions with the one changed last first; equally new ones stay in order.
pub open spec fn newest_first(metas: Seq<SessionMeta>) -> Seq<SessionMeta>
    decreases metas.len(),
{
    if metas.len() == 0 {
        Seq::empty()
    } else {
        let before = newest_first(metas.drop_last());
        before.insert(place_of(before, metas.last()), metas.last())
    }
}

/// The place lies within the list.
proof fn lemma_place(list: Seq<SessionMeta>, m: SessionMeta)
    ensures
        0 <= place_of(list, m) <= list.len(),
        forall|k: int|
            place_of(list, m) <= k < list.len() ==> text::before(
                (#[trigger] list[k]).updated_at@,
                m.updated_at@,
            ),
        place_of(list, m) > 0 ==> !text::before(
            list[place_of(list, m) - 1].updated_at@,
            m.updated_at@,
        ),
    decreases list.len(),
{
    if list.len() > 0 && text::before(list.last().updated_at@, m.updated_at@) {
        lemma_place(list.drop_last(), m);
        assert forall|k: int| place_of(list, m) <= k < list.len() implies text::before(
            (#[trigger] list[k]).updated_at@,
            m.updated_at@,
        ) by {
            if k < list.len() - 1 {
                assert(list.drop_last()[k] == list[k]);
            }
        }
    }
}

/// Puts the session changed last first.
pub fn sort_newest_first(metas: Vec<SessionMeta>) -> (r: Vec<SessionMeta>)
    ensures
        r@ == newest_first(metas@),
{
    let ghost all = metas@;
    let mut rest = metas;
    let mut out: Vec<SessionMeta> = Vec::new();
    let n: usize = rest.len();
    let mut i: usize = 0;
    proof {
        assert(all.take(0) =~= Seq::empty());
        assert(rest@ =~= all.skip(0));
    }
    while i < n
        invariant
            i <= n,
            n == all.len(),
            rest@ == all.skip(i as int),
            out@ == newest_first(all.take(i as int)),
        decreases n - i,
    {
        proof {
            assert(all.take(i + 1).drop_last() =~= all.take(i as int));
            assert(all.take(i + 1).last() == all[i as int]);
        }
        let m = rest.remove(0);
        let mut at: usize = out.len();
        proof {
            assert(rest@ =~= all.skip(i + 1));
            assert(m == all[i as int]);
            assert(out@.take(at as int) =~= out@);
        }
        while at > 0 && text::is_before(&out[at - 1].updated_at, &m.updated_at)
            invariant
                at <= out.len(),
                place_of(out@.take(at as int), m) == place_of(out@, m),
            decreases at,
        {
            proof {
                assert(out@.take(at as int).drop_last() =~= out@.take(at - 1));
            }
            at = at - 1;
        }
        assert(place_of(out@, m) == at);
        out.insert(at, m);
        i = i + 1;
    }
    proof {
        assert(all.take(all.len() as int) =~= all);
    }
    out
}

// ---------------------------------------------------------------------------
// Laws
// ---------------------------------------------------------------------------

/// What was said before stays the beginning of the conversation.
pub proof fn law_conversation_goes_on(s: SessionModel, turn: TurnModel, now: Seq<char>)
    ensures
        context_of(with_turn(s, turn, now).turns) == context_of(s.turns) + turn_text(turn),
{
    assert(s.turns.push(turn).drop_last() =~= s.turns);
}

/// A list of sessions has the newest first, and holds the sessions it was made
/// of.
pub proof fn law_newest_comes_first(metas: Seq<SessionMeta>)
    ensures
        forall|j: int, k: int|
            0 <= j < k < newest_first(metas).len() ==> !text::before(
                (#[trigger] newest_first(metas)[j]).updated_at@,
                (#[trigger] newest_first(metas)[k]).updated_at@,
            ),
        newest_first(metas).to_multiset() == metas.to_multiset(),
    decreases metas.len(),
{
    broadcast use vstd::seq_lib::group_to_multiset_ensures;

    if metas.len() > 0 {
        let shorter = metas.drop_last();
        law_newest_comes_first(shorter);
        let list = newest_first(shorter);
        let m = metas.last();
        let p = place_of(list, m);
        lemma_place(list, m);
        let out = list.insert(p, m);
        assert forall|j: int, k: int| 0 <= j < k < out.len() implies !text::before(
            (#[trigger] out[j]).updated_at@,
            (#[trigger] out[k]).updated_at@,
        ) by {
            let a = out[j].updated_at@;
            let b = out[k].updated_at@;
            if j < p && k == p {
                let c = list[p - 1].updated_at@;
                assert(out[j] == list[j]);
                if text::before(a, b) {
                    text::lemma_before_total(c, b);
                    if j < p - 1 {
                        assert(!text::before(list[j].updated_at@, list[p - 1].updated_at@));
                        if c == b {
                        } else {
                            text::lemma_before_transitive(a, b, c);
                        }
                    }
                }
            } else if j == p {
                assert(out[k] == list[k - 1]);
                if text::before(a, b) {
                    text::lemma_before_transitive(a, b, a);
                    text::lemma_before_irreflexive(a);
                }
            } else {
                assert(out[j] == list[if j < p { j } else { j - 1 }]);
                assert(out[k] == list[if k < p { k } else { k - 1 }]);
            }
        }
        assert(metas =~= shorter.push(m));
        vstd::seq_lib::to_multiset_insert(list, p, m);
    } else {
        assert(newest_first(metas) =~= metas);
    }
}

} // verus!
