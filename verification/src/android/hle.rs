//! High-level stand-ins for the Android framework calls an app makes.
use vstd::prelude::*;
use crate::android::dex::MethodId;
use crate::text::{str_contains, str_eq, has_substring};
use crate::disasm::{dec_str, push_dec_wide};

verus! {

/// A Dalvik register value: an integer, or a reference into
/// `HleHost::objects` (1-based; 0 is null).
#[derive(Debug, Clone, Copy, PartialEq, Eq, Structural)]
pub enum Value {
    Int(i32),
    Obj(u32),
}

/// A heap object of the host.
#[derive(Debug)]
pub enum HleObject {
    String(String),
    Instance { class: String, fields: Vec<(u32, Value)> },
    Null,
    Array(Vec<Value>),
}

pub enum ObjView {
    Str(Seq<char>),
    Instance { class: Seq<char>, fields: Seq<(u32, Value)> },
    Null,
    Array(Seq<Value>),
}

impl View for HleObject {
    type V = ObjView;

    open spec fn view(&self) -> ObjView {
        match self {
            HleObject::String(s) => ObjView::Str(s@),
            HleObject::Instance { class, fields } => ObjView::Instance { class: class@, fields: fields@ },
            HleObject::Null => ObjView::Null,
            HleObject::Array(v) => ObjView::Array(v@),
        }
    }
}

/// The framework state an app sees: its log, the text on screen, its heap
/// and the last touch.
#[derive(Debug)]
pub struct HleHost {
    pub logs: Vec<String>,
    pub canvas_text: String,
    pub objects: Vec<HleObject>,
    pub touch_x: i32,
    pub touch_y: i32,
    pub touch_down: bool,
}

#[verifier::ext_equal]
pub struct HostView {
    pub logs: Seq<Seq<char>>,
    pub canvas_text: Seq<char>,
    pub objects: Seq<ObjView>,
    pub touch_x: i32,
    pub touch_y: i32,
    pub touch_down: bool,
}

impl View for HleHost {
    type V = HostView;

    open spec fn view(&self) -> HostView {
        HostView {
            logs: self.logs@.map_values(|s: String| s@),
            canvas_text: self.canvas_text@,
            objects: self.objects@.map_values(|o: HleObject| o@),
            touch_x: self.touch_x,
            touch_y: self.touch_y,
            touch_down: self.touch_down,
        }
    }
}

impl Default for HleHost {
    fn default() -> (r: Self)
        ensures
            r@ == HostView::empty(),
    {
        let r = HleHost {
            logs: Vec::new(),
            canvas_text: String::new(),
            objects: Vec::new(),
            touch_x: 0,
            touch_y: 0,
            touch_down: false,
        };
        assert(r@ =~= HostView::empty());
        r
    }
}

impl Value {
    /// The integer a value stands for: a reference counts as its index.
    pub open spec fn int_of(self) -> i32 {
        match self {
            Value::Int(v) => v,
            Value::Obj(i) => i as i32,
        }
    }

    /// The value as an integer (null is 0, other references their index).
    pub fn as_int(self) -> (r: i32)
        ensures
            r == self.int_of(),
    {
        match self {
            Value::Int(v) => v,
            Value::Obj(0) => 0,
            Value::Obj(i) => i as i32,
        }
    }
}

/// A 32-bit integer in decimal, with a leading `-` when negative.
pub open spec fn int_text(v: i32) -> Seq<char> {
    if v < 0 { "-"@ + dec_str((-(v as int)) as nat) } else { dec_str(v as nat) }
}

/// See [`int_text`].
fn int_to_string(v: i32) -> (r: String)
    ensures
        r@ == int_text(v),
{
    let mut out = String::new();
    if v < 0 {
        out.append("-");
        let m: u64 = (0i64 - (v as i64)) as u64;
        push_dec_wide(&mut out, m);
    } else {
        push_dec_wide(&mut out, v as u64);
    }
    proof {
        if v >= 0 {
            assert(out@ =~= int_text(v));
        }
    }
    out
}

impl HostView {
    pub open spec fn empty() -> HostView {
        HostView {
            logs: Seq::empty(),
            canvas_text: Seq::empty(),
            objects: Seq::empty(),
            touch_x: 0,
            touch_y: 0,
            touch_down: false,
        }
    }

    /// The reference to the object that `alloc` adds.
    pub open spec fn next_ref(self) -> Value {
        Value::Obj((self.objects.len() + 1) as u32)
    }

    /// The object a value refers to, if any.
    pub open spec fn deref(self, v: Value) -> Option<ObjView> {
        match v {
            Value::Obj(i) => if 1 <= i <= self.objects.len() { Some(self.objects[i - 1]) } else { None },
            Value::Int(_) => None,
        }
    }

    /// The text of the string object a value refers to, if it is one.
    pub open spec fn string_of(self, v: Value) -> Option<Seq<char>> {
        match self.deref(v) {
            Some(ObjView::Str(s)) => Some(s),
            _ => None,
        }
    }

    /// The elements of the array a value refers to, if it is one.
    pub open spec fn array_of(self, v: Value) -> Option<Seq<Value>> {
        match self.deref(v) {
            Some(ObjView::Array(a)) => Some(a),
            _ => None,
        }
    }

    /// Stores `val` at element `idx` of the array `arr` refers to; no
    /// change unless it is an array with that element.
    pub open spec fn array_store(self, arr: Value, idx: i32, val: Value) -> HostView {
        match self.array_of(arr) {
            Some(a) => if 0 <= idx < a.len() {
                HostView { objects: self.objects.update(arr->Obj_0 - 1, ObjView::Array(a.update(idx as int, val))), ..self }
            } else {
                self
            },
            None => self,
        }
    }

    pub open spec fn alloc_object(self, o: ObjView) -> HostView {
        HostView { objects: self.objects.push(o), ..self }
    }

    /// Appends a log line and shows it on screen below the earlier text.
    pub open spec fn log_line(self, line: Seq<char>) -> HostView {
        HostView {
            logs: self.logs.push(line),
            canvas_text: if self.canvas_text.len() == 0 { line } else { self.canvas_text + "\n"@ + line },
            ..self
        }
    }

    /// The text of the string argument `i`, if there is one.
    pub open spec fn str_arg(self, args: Seq<Value>, i: int) -> Option<Seq<char>> {
        if 0 <= i < args.len() { self.string_of(args[i]) } else { None }
    }

    /// What a framework call does, and its result when the host handles it
    /// (`None`: the call is left to the app's own code). `Hle.printInt`
    /// logs its last argument in decimal.
    pub open spec fn invoke(self, class: Seq<char>, name: Seq<char>, args: Seq<Value>) -> (HostView, Option<Value>) {
        if class == "Landroid/util/Log;"@ {
            let msg = match self.str_arg(args, 1) {
                Some(m) => m,
                None => match self.str_arg(args, 0) {
                    Some(m) => m,
                    None => "<null>"@,
                },
            };
            let tag = match self.str_arg(args, 0) {
                Some(t) => t,
                None => "App"@,
            };
            (self.log_line("["@ + tag + "] "@ + msg), Some(Value::Int(0)))
        } else if class == "Lnekodroid/Hle;"@ && name == "printInt"@ {
            let msg = if args.len() > 0 { int_text(args.last().int_of()) } else { "<null>"@ };
            (self.log_line(msg), Some(Value::Int(0)))
        } else if (class == "Ljava/io/PrintStream;"@ && name == "println"@) || (class == "Lnekodroid/Hle;"@ && name
            == "println"@) {
            let msg = match self.str_arg(args, args.len() - 1) {
                Some(m) => m,
                None => "<null>"@,
            };
            (self.log_line(msg), Some(Value::Int(0)))
        } else if name == "setText"@ && has_substring(class, "TextView"@) {
            let msg = match self.str_arg(args, if args.len() >= 2 { 1 } else { 0 }) {
                Some(m) => m,
                None => Seq::empty(),
            };
            (HostView { canvas_text: msg, ..self }.log_line("TextView: "@ + msg), Some(Value::Int(0)))
        } else if name == "<init>"@ || name == "setContentView"@ || name == "setTitle"@ {
            (self, Some(Value::Int(0)))
        } else if name == "getLastTouchX"@ {
            (self, Some(Value::Int(self.touch_x)))
        } else if name == "getLastTouchY"@ {
            (self, Some(Value::Int(self.touch_y)))
        } else if name == "isTouchDown"@ {
            (self, Some(Value::Int(if self.touch_down { 1 } else { 0 })))
        } else {
            (self, None)
        }
    }
}

impl HleHost {
    fn alloc_object(&mut self, o: HleObject) -> (r: Value)
        ensures
            r == old(self)@.next_ref(),
            final(self)@ == old(self)@.alloc_object(o@),
    {
        let ghost before = self.objects@;
        self.objects.push(o);
        assert(self.objects@.map_values(|o: HleObject| o@) =~= before.map_values(|o: HleObject| o@).push(o@));
        Value::Obj(self.objects.len() as u32)
    }

    /// Allocates a string object holding `s`.
    pub fn alloc_string(&mut self, s: String) -> (r: Value)
        ensures
            r == old(self)@.next_ref(),
            final(self)@ == old(self)@.alloc_object(ObjView::Str(s@)),
    {
        self.alloc_object(HleObject::String(s))
    }

    /// Allocates an instance of `class` with no fields set.
    pub fn alloc_instance(&mut self, class: String) -> (r: Value)
        ensures
            r == old(self)@.next_ref(),
            final(self)@ == old(self)@.alloc_object(ObjView::Instance { class: class@, fields: Seq::empty() }),
    {
        self.alloc_object(HleObject::Instance { class, fields: Vec::new() })
    }

    /// Allocates an integer array of `len` zeros (none for a negative length).
    pub fn alloc_array(&mut self, len: i32) -> (r: Value)
        ensures
            r == old(self)@.next_ref(),
            final(self)@ == old(self)@.alloc_object(
                ObjView::Array(Seq::new(if len < 0 { 0 } else { len as nat }, |i: int| Value::Int(0))),
            ),
    {
        let n: usize = if len < 0 { 0 } else { len as usize };
        let mut elems: Vec<Value> = Vec::new();
        let mut i: usize = 0;
        while i < n
            invariant
                i <= n,
                elems@ == Seq::new(i as nat, |k: int| Value::Int(0)),
            decreases n - i,
        {
            elems.push(Value::Int(0));
            i = i + 1;
            assert(elems@ =~= Seq::new(i as nat, |k: int| Value::Int(0)));
        }
        self.alloc_object(HleObject::Array(elems))
    }

    /// The object index a reference stands for.
    fn index_of(&self, v: Value) -> (r: Option<usize>)
        ensures
            match r {
                Some(i) => i < self@.objects.len() && self@.deref(v) == Some(self@.objects[i as int]) && (v matches Value::Obj(k) && i == k - 1),
                None => self@.deref(v) is None,
            },
    {
        match v {
            Value::Obj(i) => {
                if i >= 1 && (i as usize) <= self.objects.len() {
                    Some((i - 1) as usize)
                } else {
                    None
                }
            },
            Value::Int(_) => None,
        }
    }

    /// The text of a string object.
    pub fn get_string(&self, v: Value) -> (r: Option<&str>)
        ensures
            match r {
                Some(s) => self@.string_of(v) == Some(s@),
                None => self@.string_of(v) is None,
            },
    {
        match self.index_of(v) {
            Some(i) => match &self.objects[i] {
                HleObject::String(s) => Some(s.as_str()),
                _ => None,
            },
            None => None,
        }
    }

    /// The length of an array object.
    pub fn array_len(&self, arr: Value) -> (r: Option<i32>)
        ensures
            match r {
                Some(n) => self@.array_of(arr) matches Some(a) && n == a.len() as i32,
                None => self@.array_of(arr) is None,
            },
    {
        match self.index_of(arr) {
            Some(i) => match &self.objects[i] {
                HleObject::Array(a) => Some(a.len() as i32),
                _ => None,
            },
            None => None,
        }
    }

    /// Element `idx` of an array object.
    pub fn array_get(&self, arr: Value, idx: i32) -> (r: Option<Value>)
        ensures
            match r {
                Some(x) => self@.array_of(arr) matches Some(a) && 0 <= idx < a.len() && x == a[idx as int],
                None => !(self@.array_of(arr) matches Some(a) && 0 <= idx < a.len()),
            },
    {
        match self.index_of(arr) {
            Some(i) => match &self.objects[i] {
                HleObject::Array(a) => {
                    if idx >= 0 && (idx as usize) < a.len() {
                        Some(a[idx as usize])
                    } else {
                        None
                    }
                },
                _ => None,
            },
            None => None,
        }
    }

    /// Stores `val` at element `idx` of an array object; whether it was one
    /// with that element.
    pub fn array_set(&mut self, arr: Value, idx: i32, val: Value) -> (r: bool)
        ensures
            r == (old(self)@.array_of(arr) matches Some(a) && 0 <= idx < a.len()),
            final(self)@ == old(self)@.array_store(arr, idx, val),
    {
        let i = match self.index_of(arr) {
            Some(i) => i,
            None => return false,
        };
        let ok = match &self.objects[i] {
            HleObject::Array(a) => idx >= 0 && (idx as usize) < a.len(),
            _ => false,
        };
        if !ok {
            return false;
        }
        let ghost before = self.objects@;
        let mut tmp = HleObject::Null;
        std::mem::swap(&mut tmp, &mut self.objects[i]);
        if let HleObject::Array(mut a) = tmp {
            a.set(idx as usize, val);
            self.objects.set(i, HleObject::Array(a));
        }
        proof {
            assert(self.objects@.map_values(|o: HleObject| o@) =~= before.map_values(|o: HleObject| o@).update(
                i as int,
                ObjView::Array(old(self)@.array_of(arr)->Some_0.update(idx as int, val)),
            ));
        }
        true
    }

    /// Appends `line` to the log and to the text on screen.
    pub fn log_line(&mut self, line: String)
        ensures
            final(self)@ == old(self)@.log_line(line@),
    {
        let ghost before = self.logs@;
        self.logs.push(line.clone());
        assert(self.logs@.map_values(|s: String| s@) =~= before.map_values(|s: String| s@).push(line@));
        if self.canvas_text.unicode_len() == 0 {
            self.canvas_text = line;
        } else {
            self.canvas_text.append("\n");
            self.canvas_text.append(line.as_str());
        }
    }

    /// The text of string argument `i`.
    fn str_arg(&self, args: &[Value], i: usize) -> (r: Option<String>)
        ensures
            match r {
                Some(s) => self@.str_arg(args@, i as int) == Some(s@),
                None => self@.str_arg(args@, i as int) is None,
            },
    {
        if i < args.len() {
            match self.get_string(args[i]) {
                Some(s) => Some(String::from_str(s)),
                None => None,
            }
        } else {
            None
        }
    }

    /// Handles a framework call the app makes; `None` leaves it to the
    /// app's own code.
    pub fn try_invoke(&mut self, method: &MethodId, args: &[Value]) -> (r: Option<Value>)
        ensures
            (final(self)@, r) == old(self)@.invoke(method@.class, method@.name, args@),
    {
        let class = method.class.as_str();
        let name = method.name.as_str();
        if str_eq(class, "Landroid/util/Log;") {
            let msg = match self.str_arg(args, 1) {
                Some(m) => m,
                None => match self.str_arg(args, 0) {
                    Some(m) => m,
                    None => String::from_str("<null>"),
                },
            };
            let tag = match self.str_arg(args, 0) {
                Some(t) => t,
                None => String::from_str("App"),
            };
            let mut line = String::new();
            line.append("[");
            line.append(tag.as_str());
            line.append("] ");
            line.append(msg.as_str());
            proof {
                assert(line@ =~= "["@ + tag@ + "] "@ + msg@);
            }
            self.log_line(line);
            return Some(Value::Int(0));
        }
        if str_eq(class, "Lnekodroid/Hle;") && str_eq(name, "printInt") {
            let msg = if args.len() > 0 {
                int_to_string(args[args.len() - 1].as_int())
            } else {
                String::from_str("<null>")
            };
            self.log_line(msg);
            return Some(Value::Int(0));
        }
        if (str_eq(class, "Ljava/io/PrintStream;") && str_eq(name, "println")) || (str_eq(class, "Lnekodroid/Hle;")
            && str_eq(name, "println")) {
            let msg = if args.len() == 0 {
                String::from_str("<null>")
            } else {
                match self.str_arg(args, args.len() - 1) {
                    Some(m) => m,
                    None => String::from_str("<null>"),
                }
            };
            self.log_line(msg);
            return Some(Value::Int(0));
        }
        if str_eq(name, "setText") && str_contains(class, "TextView") {
            let which: usize = if args.len() >= 2 { 1 } else { 0 };
            let msg = match self.str_arg(args, which) {
                Some(m) => m,
                None => String::new(),
            };
            self.canvas_text = msg.clone();
            let mut line = String::new();
            line.append("TextView: ");
            line.append(msg.as_str());
            proof {
                assert(line@ =~= "TextView: "@ + msg@);
            }
            self.log_line(line);
            return Some(Value::Int(0));
        }
        if str_eq(name, "<init>") {
            return Some(Value::Int(0));
        }
        if str_eq(name, "setContentView") || str_eq(name, "setTitle") {
            return Some(Value::Int(0));
        }
        if str_eq(name, "getLastTouchX") {
            return Some(Value::Int(self.touch_x));
        }
        if str_eq(name, "getLastTouchY") {
            return Some(Value::Int(self.touch_y));
        }
        if str_eq(name, "isTouchDown") {
            return Some(Value::Int(if self.touch_down { 1 } else { 0 }));
        }
        None
    }
}

} // verus!
