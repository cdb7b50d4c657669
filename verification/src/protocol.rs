//! Typed model of debug adapter protocol messages.
//!
//! Incoming message bodies arrive as a `JValue`, a JSON-shaped tree of plain
//! values that the driver hands over after parsing the wire payload.  The
//! functions here classify messages, interpret adapter events, and extract
//! the record types a caller consumes, with the same tolerant defaulting the
//! wire format calls for: a missing or ill-typed field falls back to a
//! documented default instead of failing, except where a whole response body
//! has the wrong shape, which is a protocol error.

use vstd::prelude::*;

verus! {

/// A JSON-shaped value.  Numbers keep only what the session logic reads:
/// an unsigned or signed integer; any other number carries no value.
#[derive(Debug)]
pub enum JValue {
    Null,
    Bool(bool),
    UInt(u64),
    Int(i64),
    InexactNum,
    Str(String),
    Arr(Vec<JValue>),
    Obj(Vec<(String, JValue)>),
}

/// The first value bound to `key` among `entries`.
pub open spec fn spec_lookup(entries: Seq<(String, JValue)>, key: Seq<char>) -> Option<JValue>
    decreases entries.len(),
{
    if entries.len() == 0 {
        None
    } else if entries[0].0@ == key {
        Some(entries[0].1)
    } else {
        spec_lookup(entries.skip(1), key)
    }
}

/// Field `key` of `m`, when `m` is an object that has it.
pub open spec fn jfield(m: JValue, key: Seq<char>) -> Option<JValue> {
    match m {
        JValue::Obj(entries) => spec_lookup(entries@, key),
        _ => None,
    }
}

/// Field `key` of `m`, with absence flattened to `Null` as an indexing
/// adapter-message reader would see it.
pub open spec fn jfield_or_null(m: JValue, key: Seq<char>) -> JValue {
    match jfield(m, key) {
        Some(v) => v,
        None => JValue::Null,
    }
}

/// The string in field `key`, or `d` when the field is absent or not a string.
pub open spec fn spec_str_field_or(m: JValue, key: Seq<char>, d: Seq<char>) -> Seq<char> {
    match jfield(m, key) {
        Some(JValue::Str(s)) => s@,
        _ => d,
    }
}

/// The unsigned integer in field `key`, or `d`.
pub open spec fn spec_u64_field_or(m: JValue, key: Seq<char>, d: u64) -> u64 {
    match jfield(m, key) {
        Some(JValue::UInt(u)) => u,
        _ => d,
    }
}

/// The signed integer in field `key`, or `d`; a small unsigned value counts.
pub open spec fn spec_i64_field_or(m: JValue, key: Seq<char>, d: i64) -> i64 {
    match jfield(m, key) {
        Some(JValue::Int(i)) => i,
        Some(JValue::UInt(u)) => if u <= i64::MAX as u64 {
            u as i64
        } else {
            d
        },
        _ => d,
    }
}

/// The boolean in field `key`, or `d`.
pub open spec fn spec_bool_field_or(m: JValue, key: Seq<char>, d: bool) -> bool {
    match jfield(m, key) {
        Some(JValue::Bool(b)) => b,
        _ => d,
    }
}

/// Character-for-character equality of two string slices.
pub fn str_eq(a: &str, b: &str) -> (r: bool)
    ensures
        r == (a@ == b@),
{
    let av = a.as_bytes_vec();
    let bv = b.as_bytes_vec();
    proof {
        vstd::utf8::encode_utf8_decode_utf8(a@);
        vstd::utf8::encode_utf8_decode_utf8(b@);
    }
    if av.len() != bv.len() {
        return false;
    }
    let mut i: usize = 0;
    while i < av.len()
        invariant
            av@.len() == bv@.len(),
            i <= av@.len(),
            av@ == vstd::utf8::encode_utf8(a@),
            bv@ == vstd::utf8::encode_utf8(b@),
            vstd::utf8::decode_utf8(av@) == a@,
            vstd::utf8::decode_utf8(bv@) == b@,
            forall|j: int| 0 <= j < i ==> av@[j] == bv@[j],
        decreases av@.len() - i,
    {
        if av[i] != bv[i] {
            return false;
        }
        i = i + 1;
    }
    proof {
        assert(av@ =~= bv@);
    }
    true
}

impl JValue {
    /// Field `key` of an object, when present.
    pub fn get<'a>(&'a self, key: &str) -> (r: Option<&'a JValue>)
        ensures
            match r {
                Some(v) => jfield(*self, key@) == Some(*v),
                None => jfield(*self, key@) is None,
            },
    {
        match self {
            JValue::Obj(entries) => {
                proof {
                    assert(entries@.skip(0) =~= entries@);
                }
                let mut i: usize = 0;
                while i < entries.len()
                    invariant
                        i <= entries@.len(),
                        jfield(*self, key@) == spec_lookup(entries@, key@),
                        spec_lookup(entries@, key@) == spec_lookup(entries@.skip(i as int), key@),
                    decreases entries@.len() - i,
                {
                    let hit = str_eq(entries[i].0.as_str(), key);
                    proof {
                        assert(entries@.skip(i as int)[0] == entries@[i as int]);
                        assert(entries@.skip(i as int).skip(1) =~= entries@.skip(i + 1));
                    }
                    if hit {
                        proof {
                            assert(spec_lookup(entries@.skip(i as int), key@) == Some(
                                entries@[i as int].1,
                            ));
                            assert(jfield(*self, key@) == Some(entries@[i as int].1));
                        }
                        let pair = &entries[i];
                        proof {
                            assert(pair.1 == entries@[i as int].1);
                        }
                        return Some(&pair.1);
                    }
                    i = i + 1;
                }
                None
            },
            _ => None,
        }
    }

    /// The string in field `key` of this object, or `default`.
    pub fn get_string_or(&self, key: &str, default: &str) -> (r: String)
        ensures
            r@ == spec_str_field_or(*self, key@, default@),
    {
        match self.get(key) {
            Some(v) => match v {
                JValue::Str(s) => s.clone(),
                _ => default.to_owned(),
            },
            None => default.to_owned(),
        }
    }

    /// The unsigned integer in field `key`, or `default`.
    pub fn get_u64_or(&self, key: &str, default: u64) -> (r: u64)
        ensures
            r == spec_u64_field_or(*self, key@, default),
    {
        match self.get(key) {
            Some(v) => match v {
                JValue::UInt(u) => *u,
                _ => default,
            },
            None => default,
        }
    }

    /// The signed integer in field `key`, or `default`.
    pub fn get_i64_or(&self, key: &str, default: i64) -> (r: i64)
        ensures
            r == spec_i64_field_or(*self, key@, default),
    {
        match self.get(key) {
            Some(v) => match v {
                JValue::Int(i) => *i,
                JValue::UInt(u) => {
                    if *u <= i64::MAX as u64 {
                        *u as i64
                    } else {
                        default
                    }
                },
                _ => default,
            },
            None => default,
        }
    }

    /// The boolean in field `key`, or `default`.
    pub fn get_bool_or(&self, key: &str, default: bool) -> (r: bool)
        ensures
            r == spec_bool_field_or(*self, key@, default),
    {
        match self.get(key) {
            Some(v) => match v {
                JValue::Bool(b) => *b,
                _ => default,
            },
            None => default,
        }
    }
}

/// The three shapes a decoded message can take on the wire.
#[derive(Clone, Copy, Debug, PartialEq, Eq, Structural)]
pub enum MessageKind {
    Response,
    Event,
    Other,
}

/// How a message classifies by its `type` field; anything but the two known
/// tags is `Other`, which a reader passes through untouched.
pub open spec fn message_kind(m: JValue) -> MessageKind {
    let t = spec_str_field_or(m, "type"@, Seq::<char>::empty());
    if t == "response"@ {
        MessageKind::Response
    } else if t == "event"@ {
        MessageKind::Event
    } else {
        MessageKind::Other
    }
}

/// Classify a decoded message by its `type` field.
pub fn classify(m: &JValue) -> (r: MessageKind)
    ensures
        r == message_kind(*m),
{
    proof {
        reveal_strlit("");
        assert(""@ =~= Seq::<char>::empty());
    }
    let t = m.get_string_or("type", "");
    if str_eq(t.as_str(), "response") {
        MessageKind::Response
    } else if str_eq(t.as_str(), "event") {
        MessageKind::Event
    } else {
        MessageKind::Other
    }
}

/// One adapter-originated event, as the event loop interprets it.
#[derive(Clone, Debug)]
pub enum AdapterEvent {
    Stopped { reason: String, thread_id: u64 },
    Continued,
    Terminated,
    Exited { exit_code: i64 },
    Output { category: String, output: String },
    Initialized,
    Process { name: String },
    Unknown { name: String },
}

/// `r` is the reading of event message `m`: the variant follows the `event`
/// name and each field comes from the body with its wire default.
pub open spec fn is_event_of(m: JValue, r: AdapterEvent) -> bool {
    let name = spec_str_field_or(m, "event"@, Seq::<char>::empty());
    let body = jfield_or_null(m, "body"@);
    match r {
        AdapterEvent::Stopped { reason, thread_id } => {
            &&& name == "stopped"@
            &&& reason@ == spec_str_field_or(body, "reason"@, "unknown"@)
            &&& thread_id == spec_u64_field_or(body, "threadId"@, 0)
        },
        AdapterEvent::Continued => name == "continued"@,
        AdapterEvent::Terminated => name == "terminated"@,
        AdapterEvent::Exited { exit_code } => {
            &&& name == "exited"@
            &&& exit_code == spec_i64_field_or(body, "exitCode"@, 0)
        },
        AdapterEvent::Output { category, output } => {
            &&& name == "output"@
            &&& category@ == spec_str_field_or(body, "category"@, "stdout"@)
            &&& output@ == spec_str_field_or(body, "output"@, Seq::<char>::empty())
        },
        AdapterEvent::Initialized => name == "initialized"@,
        AdapterEvent::Process { name: process_name } => {
            &&& name == "process"@
            &&& process_name@ == spec_str_field_or(body, "name"@, "unknown"@)
        },
        AdapterEvent::Unknown { name: raw } => {
            &&& raw@ == name
            &&& name != "stopped"@
            &&& name != "continued"@
            &&& name != "terminated"@
            &&& name != "exited"@
            &&& name != "output"@
            &&& name != "initialized"@
            &&& name != "process"@
        },
    }
}

/// Interpret an event-kind message: dispatch on the `event` name and read
/// the body fields with their wire defaults.
pub fn parse_event(m: &JValue) -> (r: AdapterEvent)
    ensures
        is_event_of(*m, r),
{
    proof {
        reveal_strlit("");
        assert(""@ =~= Seq::<char>::empty());
    }
    let name = m.get_string_or("event", "");
    let null = JValue::Null;
    let body = match m.get("body") {
        Some(b) => b,
        None => &null,
    };
    if str_eq(name.as_str(), "stopped") {
        AdapterEvent::Stopped {
            reason: body.get_string_or("reason", "unknown"),
            thread_id: body.get_u64_or("threadId", 0),
        }
    } else if str_eq(name.as_str(), "continued") {
        AdapterEvent::Continued
    } else if str_eq(name.as_str(), "terminated") {
        AdapterEvent::Terminated
    } else if str_eq(name.as_str(), "exited") {
        AdapterEvent::Exited { exit_code: body.get_i64_or("exitCode", 0) }
    } else if str_eq(name.as_str(), "output") {
        AdapterEvent::Output {
            category: body.get_string_or("category", "stdout"),
            output: body.get_string_or("output", ""),
        }
    } else if str_eq(name.as_str(), "initialized") {
        AdapterEvent::Initialized
    } else if str_eq(name.as_str(), "process") {
        AdapterEvent::Process { name: body.get_string_or("name", "unknown") }
    } else {
        AdapterEvent::Unknown { name }
    }
}

/// A source breakpoint a caller asks to set, and its acknowledged state.
#[derive(Clone, Debug)]
pub struct Breakpoint {
    pub id: Option<u32>,
    pub file: String,
    pub line: u32,
    pub verified: bool,
}

/// One frame of a stack trace response.
#[derive(Clone, Debug)]
pub struct StackFrame {
    pub id: u32,
    pub name: String,
    pub file: String,
    pub line: u32,
    pub column: u32,
}

/// One variable record of a `variables` response.
#[derive(Clone, Debug)]
pub struct Variable {
    pub name: String,
    pub value: String,
    pub type_: String,
    pub variables_reference: u32,
}

/// One scope record of a `scopes` response.
#[derive(Clone, Debug)]
pub struct Scope {
    pub name: String,
    pub variables_reference: u32,
    pub expensive: bool,
}

/// The array in field `key` of the message's `body`, when it is an array.
pub open spec fn spec_body_arr(m: JValue, key: Seq<char>) -> Option<Seq<JValue>> {
    match jfield(jfield_or_null(m, "body"@), key) {
        Some(JValue::Arr(a)) => Some(a@),
        _ => None,
    }
}

/// `fr` is the frame record read from `v` with wire defaults applied.
pub open spec fn is_frame_of(v: JValue, fr: StackFrame) -> bool {
    &&& fr.id == spec_u64_field_or(v, "id"@, 0) as u32
    &&& fr.name@ == spec_str_field_or(v, "name"@, Seq::<char>::empty())
    &&& fr.file@ == spec_str_field_or(jfield_or_null(v, "source"@), "path"@, Seq::<char>::empty())
    &&& fr.line == spec_u64_field_or(v, "line"@, 0) as u32
    &&& fr.column == spec_u64_field_or(v, "column"@, 0) as u32
}

/// `sc` is the scope record read from `v` with wire defaults applied.
pub open spec fn is_scope_of(v: JValue, sc: Scope) -> bool {
    &&& sc.name@ == spec_str_field_or(v, "name"@, Seq::<char>::empty())
    &&& sc.variables_reference == spec_u64_field_or(v, "variablesReference"@, 0) as u32
    &&& sc.expensive == spec_bool_field_or(v, "expensive"@, false)
}

/// `va` is the variable record read from `v` with wire defaults applied.
pub open spec fn is_variable_of(v: JValue, va: Variable) -> bool {
    &&& va.name@ == spec_str_field_or(v, "name"@, Seq::<char>::empty())
    &&& va.value@ == spec_str_field_or(v, "value"@, Seq::<char>::empty())
    &&& va.type_@ == spec_str_field_or(v, "type"@, Seq::<char>::empty())
    &&& va.variables_reference == spec_u64_field_or(v, "variablesReference"@, 0) as u32
}

/// Extract the frames of a `stackTrace` response; `None` when the body has
/// no `stackFrames` array, which the caller surfaces as a protocol error.
pub fn parse_stack_frames(m: &JValue) -> (r: Option<Vec<StackFrame>>)
    ensures
        match r {
            Some(frames) => spec_body_arr(*m, "stackFrames"@) matches Some(a) && frames@.len()
                == a.len() && (forall|j: int|
                0 <= j < a.len() ==> is_frame_of(a[j], #[trigger] frames@[j])),
            None => spec_body_arr(*m, "stackFrames"@) is None,
        },
{
    proof {
        reveal_strlit("");
        assert(""@ =~= Seq::<char>::empty());
    }
    let null = JValue::Null;
    let body = match m.get("body") {
        Some(b) => b,
        None => &null,
    };
    let arr = match body.get("stackFrames") {
        Some(JValue::Arr(a)) => a,
        _ => {
            return None;
        },
    };
    let ghost ga = arr@;
    proof {
        assert(spec_body_arr(*m, "stackFrames"@) == Some(ga));
    }
    let mut frames: Vec<StackFrame> = Vec::new();
    let mut i: usize = 0;
    while i < arr.len()
        invariant
            ga == arr@,
            i <= ga.len(),
            frames@.len() == i,
            forall|j: int| 0 <= j < i ==> is_frame_of(ga[j], #[trigger] frames@[j]),
        decreases ga.len() - i,
    {
        let f = &arr[i];
        let frame_null = JValue::Null;
        let src = match f.get("source") {
            Some(s) => s,
            None => &frame_null,
        };
        proof {
            reveal_strlit("");
            assert(""@ =~= Seq::<char>::empty());
        }
        let fr = StackFrame {
            id: #[verifier::truncate] (f.get_u64_or("id", 0) as u32),
            name: f.get_string_or("name", ""),
            file: src.get_string_or("path", ""),
            line: #[verifier::truncate] (f.get_u64_or("line", 0) as u32),
            column: #[verifier::truncate] (f.get_u64_or("column", 0) as u32),
        };
        proof {
            assert(jfield_or_null(ga[i as int], "source"@) == *src);
            assert(is_frame_of(ga[i as int], fr));
        }
        frames.push(fr);
        i = i + 1;
    }
    Some(frames)
}

/// Extract the scopes of a `scopes` response; `None` when the body has no
/// `scopes` array.
pub fn parse_scopes(m: &JValue) -> (r: Option<Vec<Scope>>)
    ensures
        match r {
            Some(scopes) => spec_body_arr(*m, "scopes"@) matches Some(a) && scopes@.len()
                == a.len() && (forall|j: int|
                0 <= j < a.len() ==> is_scope_of(a[j], #[trigger] scopes@[j])),
            None => spec_body_arr(*m, "scopes"@) is None,
        },
{
    proof {
        reveal_strlit("");
        assert(""@ =~= Seq::<char>::empty());
    }
    let null = JValue::Null;
    let body = match m.get("body") {
        Some(b) => b,
        None => &null,
    };
    let arr = match body.get("scopes") {
        Some(JValue::Arr(a)) => a,
        _ => {
            return None;
        },
    };
    let ghost ga = arr@;
    proof {
        assert(spec_body_arr(*m, "scopes"@) == Some(ga));
    }
    let mut scopes: Vec<Scope> = Vec::new();
    let mut i: usize = 0;
    while i < arr.len()
        invariant
            ga == arr@,
            i <= ga.len(),
            scopes@.len() == i,
            forall|j: int| 0 <= j < i ==> is_scope_of(ga[j], #[trigger] scopes@[j]),
        decreases ga.len() - i,
    {
        let s = &arr[i];
        proof {
            reveal_strlit("");
            assert(""@ =~= Seq::<char>::empty());
        }
        scopes.push(
            Scope {
                name: s.get_string_or("name", ""),
                variables_reference: #[verifier::truncate] (s.get_u64_or(
                    "variablesReference",
                    0,
                ) as u32),
                expensive: s.get_bool_or("expensive", false),
            },
        );
        i = i + 1;
    }
    Some(scopes)
}

/// Extract the variables of a `variables` response; `None` when the body has
/// no `variables` array.
pub fn parse_variables(m: &JValue) -> (r: Option<Vec<Variable>>)
    ensures
        match r {
            Some(vars) => spec_body_arr(*m, "variables"@) matches Some(a) && vars@.len() == a.len()
                && (forall|j: int| 0 <= j < a.len() ==> is_variable_of(a[j], #[trigger] vars@[j])),
            None => spec_body_arr(*m, "variables"@) is None,
        },
{
    proof {
        reveal_strlit("");
        assert(""@ =~= Seq::<char>::empty());
    }
    let null = JValue::Null;
    let body = match m.get("body") {
        Some(b) => b,
        None => &null,
    };
    let arr = match body.get("variables") {
        Some(JValue::Arr(a)) => a,
        _ => {
            return None;
        },
    };
    let ghost ga = arr@;
    proof {
        assert(spec_body_arr(*m, "variables"@) == Some(ga));
    }
    let mut vars: Vec<Variable> = Vec::new();
    let mut i: usize = 0;
    while i < arr.len()
        invariant
            ga == arr@,
            i <= ga.len(),
            vars@.len() == i,
            forall|j: int| 0 <= j < i ==> is_variable_of(ga[j], #[trigger] vars@[j]),
        decreases ga.len() - i,
    {
        let v = &arr[i];
        proof {
            reveal_strlit("");
            assert(""@ =~= Seq::<char>::empty());
        }
        vars.push(
            Variable {
                name: v.get_string_or("name", ""),
                value: v.get_string_or("value", ""),
                type_: v.get_string_or("type", ""),
                variables_reference: #[verifier::truncate] (v.get_u64_or(
                    "variablesReference",
                    0,
                ) as u32),
            },
        );
        i = i + 1;
    }
    Some(vars)
}

} // verus!
