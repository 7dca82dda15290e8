use vstd::prelude::*;
use vstd::string::*;
use crate::chars::{contains_str, dec_str, dec_string, push_char, str_contains, str_eq};
use crate::extract::{extract_message_text, extract_text};
use crate::index::{as_text_opt, fviews, max_ts, opt_str_view, opt_ts, SessionFile};
use crate::json::{
    field_of, field_or_null, get_field, json_of, parse_json_line, text_field_of,
    text_field_or_empty, JsonLite, JsonView,
};
use crate::timestamp::ts_of_view;

verus! {

/// One reconstructed conversation item.
pub enum ThreadItem {
    AgentMessage { id: String, text: String },
    UserMessage { id: String, text: String },
    Reasoning { id: String, summary: String, content: String },
}

#[verifier::ext_equal]
pub ghost enum ItemView {
    AgentMessage { id: Seq<char>, text: Seq<char> },
    UserMessage { id: Seq<char>, text: Seq<char> },
    Reasoning { id: Seq<char>, summary: Seq<char>, content: Seq<char> },
}

impl View for ThreadItem {
    type V = ItemView;

    open spec fn view(&self) -> ItemView {
        match *self {
            ThreadItem::AgentMessage { id: ref id, text: ref text } => ItemView::AgentMessage {
                id: id@,
                text: text@,
            },
            ThreadItem::UserMessage { id: ref id, text: ref text } => ItemView::UserMessage {
                id: id@,
                text: text@,
            },
            ThreadItem::Reasoning { id: ref id, summary: ref summary, content: ref content } => {
                ItemView::Reasoning { id: id@, summary: summary@, content: content@ }
            },
        }
    }
}

pub open spec fn iviews(s: Seq<ThreadItem>) -> Seq<ItemView> {
    s.map_values(|x: ThreadItem| x@)
}

/// The full reconstruction of one session: its metadata and one
/// synthetic turn holding every emitted item in file order.
pub struct SessionThread {
    pub id: String,
    pub cwd: Option<String>,
    pub preview: String,
    pub created_at: Option<i64>,
    pub updated_at: Option<i64>,
    pub turn_id: String,
    pub items: Vec<ThreadItem>,
}

#[verifier::ext_equal]
pub ghost struct ThreadView {
    pub id: Seq<char>,
    pub cwd: Option<Seq<char>>,
    pub preview: Seq<char>,
    pub created_at: Option<i64>,
    pub updated_at: Option<i64>,
    pub turn_id: Seq<char>,
    pub items: Seq<ItemView>,
}

impl View for SessionThread {
    type V = ThreadView;

    open spec fn view(&self) -> ThreadView {
        ThreadView {
            id: self.id@,
            cwd: opt_str_view(self.cwd),
            preview: self.preview@,
            created_at: self.created_at,
            updated_at: self.updated_at,
            turn_id: self.turn_id@,
            items: iviews(self.items@),
        }
    }
}

/// What one pass over the selected log file accumulates.
#[verifier::ext_equal]
pub ghost struct LoadState {
    pub cwd: Option<Seq<char>>,
    pub created_at: Option<i64>,
    pub updated_at: Option<i64>,
    pub preview: Option<Seq<char>>,
    pub items: Seq<ItemView>,
    pub index: nat,
}

pub open spec fn load_init() -> LoadState {
    LoadState {
        cwd: None,
        created_at: None,
        updated_at: None,
        preview: None,
        items: Seq::empty(),
        index: 0,
    }
}

/// The identifier synthesized for a payload that carries none:
/// `session-{sessionId}-{index}`.
pub open spec fn synth_id(sid: Seq<char>, idx: nat) -> Seq<char> {
    "session-"@ + sid + "-"@ + dec_str(idx)
}

/// A payload's item identifier: its own `id` when it is a string,
/// else the synthesized one.
pub open spec fn item_id(p: JsonView, sid: Seq<char>, idx: nat) -> Seq<char> {
    match as_text_opt(get_field(p, "id"@)) {
        Some(s) => s,
        None => synth_id(sid, idx),
    }
}

pub open spec fn load_ts_step(st: LoadState, v: JsonView) -> LoadState {
    match opt_ts(get_field(v, "timestamp"@)) {
        Some(ts) => LoadState { updated_at: max_ts(st.updated_at, ts), ..st },
        None => st,
    }
}

pub open spec fn load_meta_step(st: LoadState, v: JsonView) -> LoadState {
    match get_field(v, "payload"@) {
        Some(p) => {
            let st1 = match as_text_opt(get_field(p, "cwd"@)) {
                Some(c) => LoadState { cwd: Some(c), ..st },
                None => st,
            };
            match opt_ts(get_field(p, "timestamp"@)) {
                Some(ms) => LoadState { created_at: Some(ms), ..st1 },
                None => st1,
            }
        },
        None => st,
    }
}

/// Folds one `response_item` payload. The per-file index advances
/// for every such payload, whether or not an item is emitted.
pub open spec fn item_step(st: LoadState, sid: Seq<char>, p: JsonView) -> LoadState {
    let id = item_id(p, sid, st.index);
    let st1 = LoadState { index: st.index + 1, ..st };
    let ptype = text_field_or_empty(p, "type"@);
    if ptype == "message"@ {
        let role = text_field_or_empty(p, "role"@);
        let text = extract_text(field_or_null(p, "content"@));
        if text.len() == 0 {
            st1
        } else if role == "assistant"@ {
            LoadState {
                preview: Some(text),
                items: st1.items.push(ItemView::AgentMessage { id: id, text: text }),
                ..st1
            }
        } else if role == "user"@ {
            LoadState { items: st1.items.push(ItemView::UserMessage { id: id, text: text }), ..st1 }
        } else {
            st1
        }
    } else if ptype == "reasoning"@ {
        LoadState {
            items: st1.items.push(
                ItemView::Reasoning {
                    id: id,
                    summary: text_field_or_empty(p, "summary"@),
                    content: text_field_or_empty(p, "content"@),
                },
            ),
            ..st1
        }
    } else {
        st1
    }
}

pub open spec fn load_record_step(st: LoadState, sid: Seq<char>, v: JsonView) -> LoadState {
    let st1 = load_ts_step(st, v);
    let ty = text_field_or_empty(v, "type"@);
    if ty == "session_meta"@ {
        load_meta_step(st1, v)
    } else if ty == "response_item"@ {
        item_step(st1, sid, field_or_null(v, "payload"@))
    } else {
        st1
    }
}

pub open spec fn load_line_step(st: LoadState, sid: Seq<char>, line: Seq<char>) -> LoadState {
    match json_of(line) {
        Some(v) => load_record_step(st, sid, v),
        None => st,
    }
}

/// The accumulator after streaming the whole file, in line order.
pub open spec fn load_lines(lines: Seq<Seq<char>>, sid: Seq<char>) -> LoadState
    decreases lines.len(),
{
    if lines.len() == 0 {
        load_init()
    } else {
        load_line_step(load_lines(lines.drop_last(), sid), sid, lines.last())
    }
}

/// The first file, in traversal order, whose name contains the
/// session identifier as a substring.
pub open spec fn find_log(files: Seq<crate::index::FileView>, sid: Seq<char>) -> Option<
    crate::index::FileView,
>
    decreases files.len(),
{
    if files.len() == 0 {
        None
    } else if str_contains(files[0].name, sid) {
        Some(files[0])
    } else {
        find_log(files.drop_first(), sid)
    }
}

/// The thread a finished scan yields: one synthetic turn named
/// `turn-{sessionId}-0` holding the emitted items.
pub open spec fn thread_of_scan(st: LoadState, sid: Seq<char>) -> ThreadView {
    ThreadView {
        id: sid,
        cwd: st.cwd,
        preview: match st.preview {
            Some(t) => t,
            None => Seq::empty(),
        },
        created_at: st.created_at,
        updated_at: match st.updated_at {
            Some(u) => Some(u),
            None => st.created_at,
        },
        turn_id: "turn-"@ + sid + "-0"@,
        items: st.items,
    }
}

/// Everything `load_session` returns.
pub open spec fn spec_load(files: Seq<crate::index::FileView>, sid: Seq<char>) -> Option<
    ThreadView,
> {
    match find_log(files, sid) {
        None => None,
        Some(f) => Some(thread_of_scan(load_lines(f.lines, sid), sid)),
    }
}

fn synth_id_exec(sid: &str, idx: usize) -> (r: String)
    ensures
        r@ == synth_id(sid@, idx as nat),
{
    let mut out = String::from_str("session-");
    out.append(sid);
    push_char(&mut out, '-');
    let d = dec_string(idx);
    out.append(d.as_str());
    proof {
        reveal_strlit("-");
        assert("-"@ =~= seq!['-']);
        assert(out@ =~= synth_id(sid@, idx as nat));
    }
    out
}

/// The per-file accumulator, a plain-values mirror of `LoadState`.
pub struct LoadAcc {
    pub cwd: Option<String>,
    pub created_at: Option<i64>,
    pub updated_at: Option<i64>,
    pub preview: Option<String>,
    pub items: Vec<ThreadItem>,
    pub index: usize,
}

impl View for LoadAcc {
    type V = LoadState;

    open spec fn view(&self) -> LoadState {
        LoadState {
            cwd: opt_str_view(self.cwd),
            created_at: self.created_at,
            updated_at: self.updated_at,
            preview: opt_str_view(self.preview),
            items: iviews(self.items@),
            index: self.index as nat,
        }
    }
}

fn load_ts_step_exec(acc: LoadAcc, v: &JsonLite) -> (r: LoadAcc)
    ensures
        r@ == load_ts_step(acc@, v@),
{
    let ghost acc0 = acc@;
    let mut acc = acc;
    match field_of(v, "timestamp") {
        Option::Some(t) => {
            match crate::timestamp::parse_timestamp_ms(t) {
                Option::Some(ts) => {
                    let nu: i64 = match acc.updated_at {
                        Option::Some(p) => if ts > p {
                            ts
                        } else {
                            p
                        },
                        Option::None => ts,
                    };
                    acc.updated_at = Some(nu);
                },
                Option::None => {},
            }
        },
        Option::None => {},
    }
    assert(acc@ =~= load_ts_step(acc0, v@));
    acc
}

fn load_meta_step_exec(acc: LoadAcc, v: &JsonLite) -> (r: LoadAcc)
    ensures
        r@ == load_meta_step(acc@, v@),
{
    let ghost acc0 = acc@;
    let mut acc = acc;
    match field_of(v, "payload") {
        Option::Some(p) => {
            match text_field_of(p, "cwd") {
                Option::Some(s) => {
                    acc.cwd = Some(String::from_str(s.as_str()));
                },
                Option::None => {},
            }
            match field_of(p, "timestamp") {
                Option::Some(t) => {
                    match crate::timestamp::parse_timestamp_ms(t) {
                        Option::Some(ms) => {
                            acc.created_at = Some(ms);
                        },
                        Option::None => {},
                    }
                },
                Option::None => {},
            }
        },
        Option::None => {},
    }
    assert(acc@ =~= load_meta_step(acc0, v@));
    acc
}

fn item_step_exec(acc: LoadAcc, sid: &str, p: &JsonLite) -> (r: LoadAcc)
    requires
        acc.index < usize::MAX,
    ensures
        r@ == item_step(acc@, sid@, p@),
{
    proof {
        reveal_strlit("message");
        reveal_strlit("reasoning");
        reveal_strlit("assistant");
        reveal_strlit("user");
    }
    let ghost acc0 = acc@;
    let mut acc = acc;
    let id: String = match text_field_of(p, "id") {
        Option::Some(s) => String::from_str(s.as_str()),
        Option::None => synth_id_exec(sid, acc.index),
    };
    assert(id@ == item_id(p@, sid@, acc0.index));
    acc.index = acc.index + 1;
    let is_message: bool;
    let is_reasoning: bool;
    match text_field_of(p, "type") {
        Option::Some(s) => {
            is_message = str_eq(s.as_str(), "message");
            is_reasoning = str_eq(s.as_str(), "reasoning");
        },
        Option::None => {
            is_message = false;
            is_reasoning = false;
            assert(text_field_or_empty(p@, "type"@) != "message"@ && text_field_or_empty(
                p@,
                "type"@,
            ) != "reasoning"@) by {
                assert("message"@.len() == 7);
                assert("reasoning"@.len() == 9);
            }
        },
    }
    if is_message {
        let text = match field_of(p, "content") {
            Option::Some(c) => extract_message_text(c),
            Option::None => {
                assert(extract_text(field_or_null(p@, "content"@)) =~= Seq::<char>::empty());
                String::new()
            },
        };
        if text.as_str().unicode_len() == 0 {
            assert(acc@ =~= item_step(acc0, sid@, p@));
            return acc;
        }
        match text_field_of(p, "role") {
            Option::Some(s) => {
                if str_eq(s.as_str(), "assistant") {
                    acc.preview = Some(text.clone());
                    acc.items.push(ThreadItem::AgentMessage { id, text });
                    proof {
                        assert(iviews(acc.items@) =~= acc0.items.push(acc.items@.last()@));
                    }
                } else if str_eq(s.as_str(), "user") {
                    acc.items.push(ThreadItem::UserMessage { id, text });
                    proof {
                        assert(iviews(acc.items@) =~= acc0.items.push(acc.items@.last()@));
                    }
                }
            },
            Option::None => {
                assert(text_field_or_empty(p@, "role"@) != "assistant"@ && text_field_or_empty(
                    p@,
                    "role"@,
                ) != "user"@) by {
                    assert("assistant"@.len() == 9);
                    assert("user"@.len() == 4);
                }
            },
        }
        assert(acc@ =~= item_step(acc0, sid@, p@));
        return acc;
    }
    if is_reasoning {
        let summary = match text_field_of(p, "summary") {
            Option::Some(s) => String::from_str(s.as_str()),
            Option::None => {
                assert(text_field_or_empty(p@, "summary"@) =~= Seq::<char>::empty());
                String::new()
            },
        };
        let content = match text_field_of(p, "content") {
            Option::Some(s) => String::from_str(s.as_str()),
            Option::None => {
                assert(text_field_or_empty(p@, "content"@) =~= Seq::<char>::empty());
                String::new()
            },
        };
        acc.items.push(ThreadItem::Reasoning { id, summary, content });
        proof {
            assert(iviews(acc.items@) =~= acc0.items.push(acc.items@.last()@));
        }
        assert(acc@ =~= item_step(acc0, sid@, p@));
        return acc;
    }
    assert(acc@ =~= item_step(acc0, sid@, p@));
    acc
}

fn load_record_exec(acc: LoadAcc, sid: &str, v: &JsonLite) -> (r: LoadAcc)
    requires
        acc.index < usize::MAX,
    ensures
        r@ == load_record_step(acc@, sid@, v@),
{
    proof {
        reveal_strlit("session_meta");
        reveal_strlit("response_item");
        reveal_strlit("message");
        reveal_strlit("reasoning");
    }
    let acc = load_ts_step_exec(acc, v);
    let is_meta: bool;
    let is_item: bool;
    match text_field_of(v, "type") {
        Option::Some(s) => {
            is_meta = str_eq(s.as_str(), "session_meta");
            is_item = str_eq(s.as_str(), "response_item");
        },
        Option::None => {
            is_meta = false;
            is_item = false;
            assert(text_field_or_empty(v@, "type"@) != "session_meta"@ && text_field_or_empty(
                v@,
                "type"@,
            ) != "response_item"@) by {
                assert("session_meta"@.len() == 12);
                assert("response_item"@.len() == 13);
            }
        },
    }
    if is_meta {
        load_meta_step_exec(acc, v)
    } else if is_item {
        match field_of(v, "payload") {
            Option::Some(p) => item_step_exec(acc, sid, p),
            Option::None => item_step_exec(acc, sid, &JsonLite::Null),
        }
    } else {
        acc
    }
}

fn load_file_lines(lines: &Vec<String>, sid: &str) -> (r: LoadAcc)
    ensures
        r@ == load_lines(lines@.map_values(|l: String| l@), sid@),
{
    let ghost lv = lines@.map_values(|l: String| l@);
    let mut acc = LoadAcc {
        cwd: None,
        created_at: None,
        updated_at: None,
        preview: None,
        items: Vec::new(),
        index: 0,
    };
    assert(iviews(acc.items@) =~= Seq::<ItemView>::empty());
    assert(acc@ =~= load_init());
    assert(lv.subrange(0, 0) =~= Seq::<Seq<char>>::empty());
    let n = lines.len();
    let mut i: usize = 0;
    while i < n
        invariant
            n == lines@.len(),
            i <= n,
            lv == lines@.map_values(|l: String| l@),
            acc@ == load_lines(lv.subrange(0, i as int), sid@),
            acc.index <= i,
        decreases n - i,
    {
        proof {
            assert(lv.subrange(0, i + 1).drop_last() =~= lv.subrange(0, i as int));
            assert(lv.subrange(0, i + 1).last() == lv[i as int]);
        }
        match parse_json_line(lines[i].as_str()) {
            Option::Some(v) => {
                acc = load_record_exec(acc, sid, &v);
            },
            Option::None => {},
        }
        i += 1;
    }
    proof {
        assert(lv.subrange(0, n as int) =~= lv);
    }
    acc
}

/// Loads and reconstructs the session whose file name contains the
/// given identifier. A missing logs root is passed as `None`; both
/// that and an unmatched identifier yield `None`. The lookup is a
/// deliberate substring match: when several file names hold the
/// identifier, the first in traversal order wins, so callers wanting
/// strict uniqueness must pass an identifier no other name contains.
pub fn load_session(files: Option<&Vec<SessionFile>>, session_id: &str) -> (r: Option<
    SessionThread,
>)
    ensures
        ({
            let expected = match files {
                Option::Some(fs) => spec_load(fviews(fs@), session_id@),
                Option::None => None,
            };
            match r {
                Option::Some(t) => expected == Some(t@),
                Option::None => expected is None,
            }
        }),
{
    let fs = match files {
        Option::Some(fs) => fs,
        Option::None => {
            return None;
        },
    };
    let ghost fv = fviews(fs@);
    let n = fs.len();
    let mut i: usize = 0;
    let mut found: Option<&SessionFile> = None;
    assert(fv.skip(0) =~= fv);
    while i < n && found.is_none()
        invariant
            n == fs@.len(),
            i <= n,
            fv == fviews(fs@),
            match found {
                Option::Some(f) => find_log(fv, session_id@) == Some(f@),
                Option::None => find_log(fv, session_id@) == find_log(
                    fv.skip(i as int),
                    session_id@,
                ),
            },
        decreases n - i + (if found is None {
            1int
        } else {
            0int
        }),
    {
        proof {
            assert(fv.skip(i as int)[0] == fv[i as int]);
            assert(fv[i as int] == fs@[i as int]@);
            assert(fv.skip(i as int).drop_first() =~= fv.skip(i + 1));
        }
        if contains_str(fs[i].name.as_str(), session_id) {
            found = Some(&fs[i]);
        } else {
            i += 1;
        }
    }
    proof {
        if i == n && found is None {
            assert(fv.skip(n as int) =~= Seq::<crate::index::FileView>::empty());
        }
    }
    let file = match found {
        Option::Some(f) => f,
        Option::None => {
            return None;
        },
    };
    let acc = load_file_lines(&file.lines, session_id);
    let LoadAcc { cwd, created_at, updated_at, preview, items, index: _ } = acc;
    let mut turn_id = String::from_str("turn-");
    turn_id.append(session_id);
    turn_id.append("-0");
    let t = SessionThread {
        id: String::from_str(session_id),
        cwd,
        preview: match preview {
            Option::Some(t) => t,
            Option::None => String::new(),
        },
        created_at,
        updated_at: match updated_at {
            Option::Some(u) => Some(u),
            Option::None => created_at,
        },
        turn_id,
        items,
    };
    proof {
        assert(t@ =~= thread_of_scan(load_lines(file@.lines, session_id@), session_id@));
    }
    Some(t)
}

/// The position of the first name, in traversal order, that holds
/// the session identifier as a substring: the loose lookup the
/// loader selects its file by.
pub fn find_session_file(names: &Vec<String>, session_id: &str) -> (r: Option<usize>)
    ensures
        match r {
            Option::Some(i) => i < names@.len() && str_contains(names@[i as int]@, session_id@)
                && forall|j: int|
                0 <= j < i ==> !str_contains(#[trigger] names@[j]@, session_id@),
            Option::None => forall|j: int|
                0 <= j < names@.len() ==> !str_contains(#[trigger] names@[j]@, session_id@),
        },
{
    let n = names.len();
    let mut i: usize = 0;
    while i < n
        invariant
            n == names@.len(),
            i <= n,
            forall|j: int| 0 <= j < i ==> !str_contains(#[trigger] names@[j]@, session_id@),
        decreases n - i,
    {
        if contains_str(names[i].as_str(), session_id) {
            return Some(i);
        }
        i += 1;
    }
    None
}

/// In a reconstruction, a message whose extracted text is empty or
/// white space only emits no item, though the per-file index still
/// advances past it.
pub proof fn lemma_blank_message_emits_nothing(st: LoadState, sid: Seq<char>, v: JsonView)
    requires
        text_field_or_empty(v, "type"@) == "response_item"@,
        text_field_or_empty(field_or_null(v, "payload"@), "type"@) == "message"@,
        extract_text(field_or_null(field_or_null(v, "payload"@), "content"@)).len() == 0,
    ensures
        load_record_step(st, sid, v).items == st.items,
        load_record_step(st, sid, v).preview == st.preview,
        load_record_step(st, sid, v).index == st.index + 1,
    {
    reveal_strlit("session_meta");
    reveal_strlit("response_item");
    reveal_strlit("message");
    reveal_strlit("reasoning");
    assert("session_meta"@.len() == 12);
    assert("response_item"@.len() == 13);
    assert("message"@.len() == 7);
    assert("reasoning"@.len() == 9);
}

} // verus!
