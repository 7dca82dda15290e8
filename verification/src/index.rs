use vstd::prelude::*;
use vstd::string::*;
use crate::chars::str_eq;
use crate::extract::{extract_message_text, extract_text};
use crate::json::{
    field_of, field_or_null, get_field, json_of, parse_json_line, text_field_of,
    text_field_or_empty, JsonLite, JsonView,
};
use crate::path::{norm_path, normalize_windows_path};
use crate::timestamp::{parse_timestamp_ms, ts_of_view};

verus! {

/// One discovered session log: its file name and its lines.
pub struct SessionFile {
    pub name: String,
    pub lines: Vec<String>,
}

#[verifier::ext_equal]
pub ghost struct FileView {
    pub name: Seq<char>,
    pub lines: Seq<Seq<char>>,
}

impl View for SessionFile {
    type V = FileView;

    open spec fn view(&self) -> FileView {
        FileView { name: self.name@, lines: self.lines@.map_values(|l: String| l@) }
    }
}

pub open spec fn fviews(s: Seq<SessionFile>) -> Seq<FileView> {
    s.map_values(|f: SessionFile| f@)
}

/// One listed session.
pub struct SessionSummary {
    pub id: String,
    pub cwd: String,
    pub preview: String,
    pub created_at: Option<i64>,
    pub updated_at: Option<i64>,
    pub source: String,
}

#[verifier::ext_equal]
pub ghost struct SummaryView {
    pub id: Seq<char>,
    pub cwd: Seq<char>,
    pub preview: Seq<char>,
    pub created_at: Option<i64>,
    pub updated_at: Option<i64>,
    pub source: Seq<char>,
}

impl View for SessionSummary {
    type V = SummaryView;

    open spec fn view(&self) -> SummaryView {
        SummaryView {
            id: self.id@,
            cwd: self.cwd@,
            preview: self.preview@,
            created_at: self.created_at,
            updated_at: self.updated_at,
            source: self.source@,
        }
    }
}

pub open spec fn sviews(s: Seq<SessionSummary>) -> Seq<SummaryView> {
    s.map_values(|x: SessionSummary| x@)
}

/// What one pass over a log file accumulates.
#[verifier::ext_equal]
pub ghost struct ScanState {
    pub session_id: Option<Seq<char>>,
    pub cwd: Option<Seq<char>>,
    pub created_at: Option<i64>,
    pub updated_at: Option<i64>,
    pub last_user: Option<Seq<char>>,
    pub last_assistant: Option<Seq<char>>,
}

pub open spec fn scan_init() -> ScanState {
    ScanState {
        session_id: None,
        cwd: None,
        created_at: None,
        updated_at: None,
        last_user: None,
        last_assistant: None,
    }
}

pub open spec fn as_text_opt(o: Option<JsonView>) -> Option<Seq<char>> {
    match o {
        Some(JsonView::Text(s)) => Some(s),
        _ => None,
    }
}

pub open spec fn opt_ts(o: Option<JsonView>) -> Option<i64> {
    match o {
        Some(t) => ts_of_view(t),
        None => None,
    }
}

/// The running maximum of every timestamp seen so far.
pub open spec fn max_ts(prev: Option<i64>, ts: i64) -> Option<i64> {
    match prev {
        Some(p) => if ts > p {
            Some(ts)
        } else {
            Some(p)
        },
        None => Some(ts),
    }
}

/// Folds a record's top-level timestamp into the running maximum.
pub open spec fn ts_step(st: ScanState, v: JsonView) -> ScanState {
    match opt_ts(get_field(v, "timestamp"@)) {
        Some(ts) => ScanState { updated_at: max_ts(st.updated_at, ts), ..st },
        None => st,
    }
}

/// Folds a `session_meta` record: id, cwd and created-at, each
/// last-wins and each only when present with the right shape.
pub open spec fn meta_step(st: ScanState, v: JsonView) -> ScanState {
    match get_field(v, "payload"@) {
        Some(p) => {
            let st1 = match as_text_opt(get_field(p, "id"@)) {
                Some(id) => ScanState { session_id: Some(id), ..st },
                None => st,
            };
            let st2 = match as_text_opt(get_field(p, "cwd"@)) {
                Some(c) => ScanState { cwd: Some(c), ..st1 },
                None => st1,
            };
            match opt_ts(get_field(p, "timestamp"@)) {
                Some(ms) => ScanState { created_at: Some(ms), ..st2 },
                None => st2,
            }
        },
        None => st,
    }
}

/// Folds a `response_item` payload: a message with non-empty
/// extracted text updates the matching last-seen preview.
pub open spec fn message_step(st: ScanState, p: JsonView) -> ScanState {
    if text_field_or_empty(p, "type"@) == "message"@ {
        let role = text_field_or_empty(p, "role"@);
        let text = extract_text(field_or_null(p, "content"@));
        if text.len() == 0 {
            st
        } else if role == "assistant"@ {
            ScanState { last_assistant: Some(text), ..st }
        } else if role == "user"@ {
            ScanState { last_user: Some(text), ..st }
        } else {
            st
        }
    } else {
        st
    }
}

/// Folds one parsed record into the accumulator.
pub open spec fn list_record_step(st: ScanState, v: JsonView) -> ScanState {
    let st1 = ts_step(st, v);
    let ty = text_field_or_empty(v, "type"@);
    if ty == "session_meta"@ {
        meta_step(st1, v)
    } else if ty == "response_item"@ {
        message_step(st1, field_or_null(v, "payload"@))
    } else {
        st1
    }
}

/// Folds one raw line: lines that do not parse are skipped.
pub open spec fn list_line_step(st: ScanState, line: Seq<char>) -> ScanState {
    match json_of(line) {
        Some(v) => list_record_step(st, v),
        None => st,
    }
}

/// The accumulator after streaming a whole file, in line order.
pub open spec fn scan_lines(lines: Seq<Seq<char>>) -> ScanState
    decreases lines.len(),
{
    if lines.len() == 0 {
        scan_init()
    } else {
        list_line_step(scan_lines(lines.drop_last()), lines.last())
    }
}

/// The per-file accumulator, a plain-values mirror of `ScanState`.
pub struct ListAcc {
    pub session_id: Option<String>,
    pub cwd: Option<String>,
    pub created_at: Option<i64>,
    pub updated_at: Option<i64>,
    pub last_user: Option<String>,
    pub last_assistant: Option<String>,
}

pub open spec fn opt_str_view(o: Option<String>) -> Option<Seq<char>> {
    match o {
        Some(s) => Some(s@),
        None => None,
    }
}

impl View for ListAcc {
    type V = ScanState;

    open spec fn view(&self) -> ScanState {
        ScanState {
            session_id: opt_str_view(self.session_id),
            cwd: opt_str_view(self.cwd),
            created_at: self.created_at,
            updated_at: self.updated_at,
            last_user: opt_str_view(self.last_user),
            last_assistant: opt_str_view(self.last_assistant),
        }
    }
}

fn ts_step_exec(acc: ListAcc, v: &JsonLite) -> (r: ListAcc)
    ensures
        r@ == ts_step(acc@, v@),
{
    let ghost acc0 = acc@;
    let mut acc = acc;
    match field_of(v, "timestamp") {
        Option::Some(t) => {
            match parse_timestamp_ms(t) {
                Option::Some(ts) => {
                    let nu: i64 = match acc.updated_at {
                        Option::Some(p) => if ts > p {
                            ts
                        } else {
                            p
                        },
                        Option::None => ts,
                    };
                    acc.updated_at = Some(nu);
                },
                Option::None => {},
            }
        },
        Option::None => {},
    }
    assert(acc@ =~= ts_step(acc0, v@));
    acc
}

fn meta_step_exec(acc: ListAcc, v: &JsonLite) -> (r: ListAcc)
    ensures
        r@ == meta_step(acc@, v@),
{
    let ghost acc0 = acc@;
    let mut acc = acc;
    match field_of(v, "payload") {
        Option::Some(p) => {
            match text_field_of(p, "id") {
                Option::Some(s) => {
                    acc.session_id = Some(String::from_str(s.as_str()));
                },
                Option::None => {},
            }
            match text_field_of(p, "cwd") {
                Option::Some(s) => {
                    acc.cwd = Some(String::from_str(s.as_str()));
                },
                Option::None => {},
            }
            match field_of(p, "timestamp") {
                Option::Some(t) => {
                    match parse_timestamp_ms(t) {
                        Option::Some(ms) => {
                            acc.created_at = Some(ms);
                        },
                        Option::None => {},
                    }
                },
                Option::None => {},
            }
        },
        Option::None => {},
    }
    assert(acc@ =~= meta_step(acc0, v@));
    acc
}

fn message_step_exec(acc: ListAcc, p: &JsonLite) -> (r: ListAcc)
    ensures
        r@ == message_step(acc@, p@),
{
    proof {
        reveal_strlit("message");
        reveal_strlit("assistant");
        reveal_strlit("user");
    }
    let ghost acc0 = acc@;
    let mut acc = acc;
    let is_msg = match text_field_of(p, "type") {
        Option::Some(s) => str_eq(s.as_str(), "message"),
        Option::None => false,
    };
    if !is_msg {
        assert(text_field_or_empty(p@, "type"@) != "message"@) by {
            assert("message"@.len() == 7);
        }
        assert(acc@ =~= message_step(acc0, p@));
        return acc;
    }
    let text = match field_of(p, "content") {
        Option::Some(c) => extract_message_text(c),
        Option::None => {
            assert(extract_text(field_or_null(p@, "content"@)) =~= Seq::<char>::empty());
            String::new()
        },
    };
    if text.as_str().unicode_len() == 0 {
        assert(acc@ =~= message_step(acc0, p@));
        return acc;
    }
    match text_field_of(p, "role") {
        Option::Some(s) => {
            if str_eq(s.as_str(), "assistant") {
                acc.last_assistant = Some(text);
            } else if str_eq(s.as_str(), "user") {
                acc.last_user = Some(text);
            }
        },
        Option::None => {
            assert(text_field_or_empty(p@, "role"@) != "assistant"@ && text_field_or_empty(
                p@,
                "role"@,
            ) != "user"@) by {
                assert("assistant"@.len() == 9);
                assert("user"@.len() == 4);
            }
        },
    }
    assert(acc@ =~= message_step(acc0, p@));
    acc
}

fn list_record_exec(acc: ListAcc, v: &JsonLite) -> (r: ListAcc)
    ensures
        r@ == list_record_step(acc@, v@),
{
    proof {
        reveal_strlit("session_meta");
        reveal_strlit("response_item");
        reveal_strlit("message");
    }
    let acc = ts_step_exec(acc, v);
    let is_meta: bool;
    let is_item: bool;
    match text_field_of(v, "type") {
        Option::Some(s) => {
            is_meta = str_eq(s.as_str(), "session_meta");
            is_item = str_eq(s.as_str(), "response_item");
        },
        Option::None => {
            is_meta = false;
            is_item = false;
            assert(text_field_or_empty(v@, "type"@) != "session_meta"@ && text_field_or_empty(
                v@,
                "type"@,
            ) != "response_item"@) by {
                assert("session_meta"@.len() == 12);
                assert("response_item"@.len() == 13);
            }
        },
    }
    if is_meta {
        meta_step_exec(acc, v)
    } else if is_item {
        match field_of(v, "payload") {
            Option::Some(p) => message_step_exec(acc, p),
            Option::None => {
                assert(message_step(acc@, JsonView::Null) == acc@) by {
                    assert("message"@.len() == 7);
                }
                acc
            },
        }
    } else {
        acc
    }
}

fn scan_file_lines(lines: &Vec<String>) -> (r: ListAcc)
    ensures
        r@ == scan_lines(lines@.map_values(|l: String| l@)),
{
    let ghost lv = lines@.map_values(|l: String| l@);
    let mut acc = ListAcc {
        session_id: None,
        cwd: None,
        created_at: None,
        updated_at: None,
        last_user: None,
        last_assistant: None,
    };
    assert(acc@ =~= scan_init());
    assert(lv.subrange(0, 0) =~= Seq::<Seq<char>>::empty());
    let n = lines.len();
    let mut i: usize = 0;
    while i < n
        invariant
            n == lines@.len(),
            i <= n,
            lv == lines@.map_values(|l: String| l@),
            acc@ == scan_lines(lv.subrange(0, i as int)),
        decreases n - i,
    {
        proof {
            assert(lv.subrange(0, i + 1).drop_last() =~= lv.subrange(0, i as int));
            assert(lv.subrange(0, i + 1).last() == lv[i as int]);
        }
        match parse_json_line(lines[i].as_str()) {
            Option::Some(v) => {
                acc = list_record_exec(acc, &v);
            },
            Option::None => {},
        }
        i += 1;
    }
    proof {
        assert(lv.subrange(0, n as int) =~= lv);
    }
    acc
}

/// The summary a finished scan yields, if the file belongs to the
/// target workspace and names a session.
pub open spec fn summary_of_scan(st: ScanState, target: Seq<char>) -> Option<SummaryView> {
    match st.cwd {
        None => None,
        Some(c) => if norm_path(c) != norm_path(target) {
            None
        } else {
            match st.session_id {
                None => None,
                Some(id) => Some(
                    SummaryView {
                        id: id,
                        cwd: target,
                        preview: match st.last_assistant {
                            Some(t) => t,
                            None => match st.last_user {
                                Some(t) => t,
                                None => Seq::empty(),
                            },
                        },
                        created_at: st.created_at,
                        updated_at: match st.updated_at {
                            Some(u) => Some(u),
                            None => st.created_at,
                        },
                        source: "session"@,
                    },
                ),
            }
        },
    }
}

pub open spec fn file_summary(f: FileView, target: Seq<char>) -> Option<SummaryView> {
    summary_of_scan(scan_lines(f.lines), target)
}

/// Streams one log file and derives its summary, or nothing when the
/// file does not belong to the target workspace or names no session.
pub fn summarize_file(file: &SessionFile, workspace_path: &str, target_norm: &String) -> (r:
    Option<SessionSummary>)
    requires
        target_norm@ == norm_path(workspace_path@),
    ensures
        match r {
            Option::Some(s) => file_summary(file@, workspace_path@) == Some(s@),
            Option::None => file_summary(file@, workspace_path@) is None,
        },
{
    let acc = scan_file_lines(&file.lines);
    let ListAcc { session_id, cwd, created_at, updated_at, last_user, last_assistant } = acc;
    match cwd {
        Option::None => None,
        Option::Some(c) => {
            let cn = normalize_windows_path(c.as_str());
            if !str_eq(cn.as_str(), target_norm.as_str()) {
                None
            } else {
                match session_id {
                    Option::None => None,
                    Option::Some(id) => {
                        let preview = match last_assistant {
                            Option::Some(t) => t,
                            Option::None => match last_user {
                                Option::Some(t) => t,
                                Option::None => String::new(),
                            },
                        };
                        let s = SessionSummary {
                            id,
                            cwd: String::from_str(workspace_path),
                            preview,
                            created_at,
                            updated_at: match updated_at {
                                Option::Some(u) => Some(u),
                                Option::None => created_at,
                            },
                            source: String::from_str("session"),
                        };
                        proof {
                            reveal_strlit("session");
                            assert(file_summary(file@, workspace_path@) matches Some(sv)
                                && sv =~= s@);
                        }
                        Some(s)
                    },
                }
            }
        },
    }
}

/// The summaries of the surviving files, in file order.
pub open spec fn summaries_of(files: Seq<FileView>, target: Seq<char>) -> Seq<SummaryView>
    decreases files.len(),
{
    if files.len() == 0 {
        Seq::empty()
    } else {
        let rest = summaries_of(files.drop_last(), target);
        match file_summary(files.last(), target) {
            Some(s) => rest.push(s),
            None => rest,
        }
    }
}

/// Sessions sort by this key, newest first; a session without any
/// timestamp sorts as zero, i.e. last.
pub open spec fn sort_key(s: SummaryView) -> int {
    match s.updated_at {
        Some(u) => u as int,
        None => 0,
    }
}

/// Places `x` after every element whose key is at least its own:
/// descending order, ties kept stable.
pub open spec fn insert_desc(x: SummaryView, s: Seq<SummaryView>) -> Seq<SummaryView>
    decreases s.len(),
{
    if s.len() == 0 {
        seq![x]
    } else if sort_key(s[0]) >= sort_key(x) {
        seq![s[0]] + insert_desc(x, s.drop_first())
    } else {
        seq![x] + s
    }
}

/// Stable sort, descending by `sort_key`.
pub open spec fn sort_desc(s: Seq<SummaryView>) -> Seq<SummaryView>
    decreases s.len(),
{
    if s.len() == 0 {
        s
    } else {
        insert_desc(s.last(), sort_desc(s.drop_last()))
    }
}

pub open spec fn take_limit(s: Seq<SummaryView>, limit: Option<u32>) -> Seq<SummaryView> {
    match limit {
        None => s,
        Some(l) => if s.len() <= l {
            s
        } else {
            s.subrange(0, l as int)
        },
    }
}

/// Everything `list_sessions` returns: the surviving files'
/// summaries, sorted newest first, truncated to the limit.
pub open spec fn spec_list(files: Seq<FileView>, target: Seq<char>, limit: Option<u32>) -> Seq<
    SummaryView,
> {
    take_limit(sort_desc(summaries_of(files, target)), limit)
}

proof fn lemma_insert_desc_at(x: SummaryView, s: Seq<SummaryView>, k: int)
    requires
        0 <= k <= s.len(),
        forall|j: int| 0 <= j < k ==> sort_key(#[trigger] s[j]) >= sort_key(x),
        k < s.len() ==> sort_key(s[k]) < sort_key(x),
    ensures
        insert_desc(x, s) == s.insert(k, x),
    decreases k,
{
    if s.len() == 0 {
        assert(insert_desc(x, s) =~= s.insert(0, x));
    } else if k == 0 {
        assert(insert_desc(x, s) =~= s.insert(0, x));
    } else {
        lemma_insert_desc_at(x, s.drop_first(), k - 1);
        assert(insert_desc(x, s) == seq![s[0]] + insert_desc(x, s.drop_first()));
        assert(seq![s[0]] + s.drop_first().insert(k - 1, x) =~= s.insert(k, x));
    }
}

fn key_of(s: &SessionSummary) -> (k: i64)
    ensures
        k as int == sort_key(s@),
{
    match s.updated_at {
        Option::Some(u) => u,
        Option::None => 0,
    }
}

fn insert_sorted(out: &mut Vec<SessionSummary>, x: SessionSummary)
    ensures
        sviews(final(out)@) == insert_desc(x@, sviews(old(out)@)),
{
    let kx = key_of(&x);
    let n = out.len();
    let mut i: usize = 0;
    while i < n && key_of(&out[i]) >= kx
        invariant
            n == out@.len(),
            i <= n,
            *out == *old(out),
            kx as int == sort_key(x@),
            forall|j: int| 0 <= j < i ==> sort_key(#[trigger] sviews(out@)[j]) >= sort_key(x@),
        decreases n - i,
    {
        i += 1;
    }
    proof {
        if i < n {
            assert(sort_key(sviews(out@)[i as int]) < sort_key(x@));
        }
        lemma_insert_desc_at(x@, sviews(out@), i as int);
    }
    out.insert(i, x);
    proof {
        assert(sviews(final(out)@) =~= sviews(old(out)@).insert(i as int, x@));
    }
}

fn sort_summaries(input: Vec<SessionSummary>) -> (r: Vec<SessionSummary>)
    ensures
        sviews(r@) == sort_desc(sviews(input@)),
{
    let mut v = input;
    let mut out: Vec<SessionSummary> = Vec::new();
    let ghost mut done: Seq<SessionSummary> = Seq::empty();
    assert(sviews(out@) =~= sort_desc(sviews(done)));
    assert(done + v@ =~= input@);
    while v.len() > 0
        invariant
            done + v@ == input@,
            sviews(out@) == sort_desc(sviews(done)),
        decreases v.len(),
    {
        let ghost v0 = v@;
        let x = v.remove(0);
        proof {
            assert(done.push(x) + v@ =~= done + v0);
        }
        insert_sorted(&mut out, x);
        proof {
            assert(sviews(done.push(x)).drop_last() =~= sviews(done));
            assert(sviews(done.push(x)).last() == x@);
            assert(sort_desc(sviews(done.push(x))) == insert_desc(x@, sort_desc(sviews(done))));
            done = done.push(x);
        }
    }
    proof {
        assert(done =~= input@);
    }
    out
}

/// Lists the sessions found in the given log files that belong to
/// the target workspace, newest first, truncated to `limit`. A
/// missing logs root is passed as `None` and yields an empty listing.
pub fn list_sessions(files: Option<&Vec<SessionFile>>, workspace_path: &str, limit: Option<
    u32,
>) -> (r: Vec<SessionSummary>)
    ensures
        match files {
            Option::Some(fs) => sviews(r@) == spec_list(fviews(fs@), workspace_path@, limit),
            Option::None => r@ == Seq::<SessionSummary>::empty(),
        },
{
    match files {
        Option::None => Vec::new(),
        Option::Some(fs) => {
            let ghost fv = fviews(fs@);
            let target_norm = normalize_windows_path(workspace_path);
            let mut collected: Vec<SessionSummary> = Vec::new();
            assert(fv.subrange(0, 0) =~= Seq::<FileView>::empty());
            assert(sviews(collected@) =~= summaries_of(fv.subrange(0, 0), workspace_path@));
            let n = fs.len();
            let mut i: usize = 0;
            while i < n
                invariant
                    n == fs@.len(),
                    i <= n,
                    fv == fviews(fs@),
                    target_norm@ == norm_path(workspace_path@),
                    sviews(collected@) == summaries_of(fv.subrange(0, i as int), workspace_path@),
                decreases n - i,
            {
                proof {
                    assert(fv.subrange(0, i + 1).drop_last() =~= fv.subrange(0, i as int));
                    assert(fv.subrange(0, i + 1).last() == fv[i as int]);
                    assert(fv[i as int] == fs@[i as int]@);
                }
                match summarize_file(&fs[i], workspace_path, &target_norm) {
                    Option::Some(s) => {
                        collected.push(s);
                        proof {
                            assert(sviews(collected@) =~= sviews(collected@.drop_last()).push(
                                collected@.last()@,
                            ));
                        }
                    },
                    Option::None => {},
                }
                i += 1;
            }
            proof {
                assert(fv.subrange(0, n as int) =~= fv);
            }
            let mut sorted = sort_summaries(collected);
            match limit {
                Option::Some(l) => {
                    let cap = l as usize;
                    sorted.truncate(cap);
                },
                Option::None => {},
            }
            sorted
        },
    }
}

/// The cwd recorded by the last `session_meta` record that carries
/// one decides which workspace a file belongs to, whatever came
/// before it.
pub proof fn lemma_last_meta_cwd_wins(
    lines: Seq<Seq<char>>,
    line: Seq<char>,
    v: JsonView,
    p: JsonView,
    c: Seq<char>,
)
    requires
        json_of(line) == Some(v),
        text_field_or_empty(v, "type"@) == "session_meta"@,
        get_field(v, "payload"@) == Some(p),
        get_field(p, "cwd"@) == Some(JsonView::Text(c)),
    ensures
        scan_lines(lines.push(line)).cwd == Some(c),
{
    assert(lines.push(line).drop_last() =~= lines);
    assert(lines.push(line).last() == line);
}

/// A message whose extracted text is empty or white space only
/// leaves both running previews untouched.
pub proof fn lemma_blank_message_keeps_previews(st: ScanState, v: JsonView)
    requires
        text_field_or_empty(v, "type"@) == "response_item"@,
        extract_text(field_or_null(field_or_null(v, "payload"@), "content"@)).len() == 0,
    ensures
        list_record_step(st, v).last_assistant == st.last_assistant,
        list_record_step(st, v).last_user == st.last_user,
{
    reveal_strlit("session_meta");
    reveal_strlit("response_item");
}

} // verus!
