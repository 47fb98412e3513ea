//! JSON values: the tree that a text stands for, and reading from and adding
//! to it.

use crate::codec::Float;
use crate::text::{own, text_eq};
use vstd::prelude::*;

verus! {

/// A JSON value, mathematically. A number is an integer where its text has
/// neither fraction nor exponent and it fits in 64 bits, otherwise a
/// double-precision number, given by the shortest decimal text for it.
pub enum Tree {
    Null,
    Bool(bool),
    Int(int),
    Float(Seq<char>),
    Str(Seq<char>),
    Array(Seq<Tree>),
    Object(Map<Seq<char>, Tree>),
}

/// Whether a fractional number's text is that of zero, of either sign.
pub open spec fn zero_text(s: Seq<char>) -> bool {
    s == "0.0"@ || s == "-0.0"@
}

/// A JSON value. Where a key stands more than once in an object, the last one
/// counts.
pub enum Json {
    Null,
    Bool(bool),
    Uint(u64),
    Int(i64),
    Float(Float),
    Str(String),
    Array(Vec<Json>),
    Object(Vec<(String, Json)>),
}

/// The map that a list of entries makes, later entries over earlier ones.
pub open spec fn fields(s: Seq<(Seq<char>, Tree)>) -> Map<Seq<char>, Tree>
    decreases s.len(),
{
    if s.len() == 0 {
        Map::empty()
    } else {
        fields(s.drop_last()).insert(s.last().0, s.last().1)
    }
}

impl Json {
    /// The value that this stands for.
    pub open spec fn tree(self) -> Tree
        decreases self,
    {
        match self {
            Json::Null => Tree::Null,
            Json::Bool(b) => Tree::Bool(b),
            Json::Uint(n) => Tree::Int(n as int),
            Json::Int(n) => Tree::Int(n as int),
            Json::Float(f) => Tree::Float(f@),
            Json::Str(s) => Tree::Str(s@),
            Json::Array(v) => Tree::Array(tree_list(v@)),
            Json::Object(v) => Tree::Object(fields(entry_list(v@))),
        }
    }
}

/// The values of a list, one by one.
pub open spec fn tree_list(s: Seq<Json>) -> Seq<Tree>
    decreases s,
{
    Seq::new(
        s.len(),
        |i: int|
            if 0 <= i < s.len() {
                s[i].tree()
            } else {
                Tree::Null
            },
    )
}

/// The entries of a list, one by one.
pub open spec fn entry_list(s: Seq<(String, Json)>) -> Seq<(Seq<char>, Tree)>
    decreases s,
{
    Seq::new(
        s.len(),
        |i: int|
            if 0 <= i < s.len() {
                (s[i].0@, s[i].1.tree())
            } else {
                (Seq::empty(), Tree::Null)
            },
    )
}

impl View for Json {
    type V = Tree;

    open spec fn view(&self) -> Tree {
        self.tree()
    }
}

/// What a list of JSON values holds.
pub open spec fn trees(s: Seq<Json>) -> Seq<Tree> {
    s.map_values(|j: Json| j@)
}

/// What the entries of an object hold.
pub open spec fn entries(s: Seq<(String, Json)>) -> Seq<(Seq<char>, Tree)> {
    s.map_values(|p: (String, Json)| (p.0@, p.1@))
}

/// The view of an array is the array of the views.
pub proof fn lemma_array_view(v: Vec<Json>)
    ensures
        Json::Array(v)@ == Tree::Array(trees(v@)),
{
    assert(tree_list(v@) =~= trees(v@));
}

/// The view of an object is the map of its entries.
pub proof fn lemma_object_view(v: Vec<(String, Json)>)
    ensures
        Json::Object(v)@ == Tree::Object(fields(entries(v@))),
{
    assert(entry_list(v@) =~= entries(v@));
}

impl Tree {
    /// The value under a key of an object.
    pub open spec fn get(self, key: Seq<char>) -> Option<Tree> {
        match self {
            Tree::Object(m) => if m.contains_key(key) {
                Some(m[key])
            } else {
                None
            },
            _ => None,
        }
    }

    /// The text of a string.
    pub open spec fn as_text(self) -> Option<Seq<char>> {
        match self {
            Tree::Str(s) => Some(s),
            _ => None,
        }
    }

    /// The number, if it is an integer from zero to `u64::MAX`.
    pub open spec fn uint(self) -> Option<int> {
        match self {
            Tree::Int(n) => if 0 <= n <= u64::MAX {
                Some(n)
            } else {
                None
            },
            _ => None,
        }
    }

    /// The number, if it is an integer that fits in an `i64`.
    pub open spec fn sint(self) -> Option<int> {
        match self {
            Tree::Int(n) => if i64::MIN <= n <= i64::MAX {
                Some(n)
            } else {
                None
            },
            _ => None,
        }
    }

    /// The value of a boolean.
    pub open spec fn truth(self) -> Option<bool> {
        match self {
            Tree::Bool(b) => Some(b),
            _ => None,
        }
    }

    /// The items of an array.
    pub open spec fn items(self) -> Option<Seq<Tree>> {
        match self {
            Tree::Array(s) => Some(s),
            _ => None,
        }
    }

    /// The object with the key set to the value. What is no object is
    /// replaced by one that holds the key alone.
    pub open spec fn with(self, key: Seq<char>, value: Tree) -> Tree {
        match self {
            Tree::Object(m) => Tree::Object(m.insert(key, value)),
            _ => Tree::Object(Map::empty().insert(key, value)),
        }
    }

    /// The value under the first of two keys that an object has.
    pub open spec fn either(self, a: Seq<char>, b: Seq<char>) -> Option<Tree> {
        match self.get(a) {
            Some(t) => Some(t),
            None => self.get(b),
        }
    }

    /// The text under the first of two keys that an object has.
    pub open spec fn either_str(self, a: Seq<char>, b: Seq<char>) -> Option<Seq<char>> {
        match self.either(a, b) {
            Some(t) => t.as_text(),
            None => None,
        }
    }

    /// The value under a key of the object under another.
    pub open spec fn get_in(self, outer: Seq<char>, inner: Seq<char>) -> Option<Tree> {
        match self.get(outer) {
            Some(t) => t.get(inner),
            None => None,
        }
    }

    /// The text under a key of an object.
    pub open spec fn get_str(self, key: Seq<char>) -> Option<Seq<char>> {
        match self.get(key) {
            Some(t) => t.as_text(),
            None => None,
        }
    }
}

/// The object without entries.
pub open spec fn obj() -> Tree {
    Tree::Object(Map::empty())
}

/// Which value the map of a list of entries has under a key.
pub proof fn lemma_fields(s: Seq<(Seq<char>, Tree)>, key: Seq<char>, i: int)
    requires
        -1 <= i < s.len(),
        forall|j: int| i < j < s.len() ==> s[j].0 != key,
        i >= 0 ==> s[i].0 == key,
    ensures
        i < 0 ==> !fields(s).contains_key(key),
        i >= 0 ==> fields(s).contains_key(key) && fields(s)[key] == s[i].1,
    decreases s.len(),
{
    if s.len() > 0 && i < s.len() - 1 {
        lemma_fields(s.drop_last(), key, i);
    }
}

/// Changing the last entry of a key is setting the key.
proof fn lemma_fields_update(s: Seq<(Seq<char>, Tree)>, i: int, value: Tree)
    requires
        0 <= i < s.len(),
        forall|j: int| i < j < s.len() ==> s[j].0 != s[i].0,
    ensures
        fields(s.update(i, (s[i].0, value))) == fields(s).insert(s[i].0, value),
    decreases s.len(),
{
    let t = s.update(i, (s[i].0, value));
    if i == s.len() - 1 {
        assert(t.drop_last() =~= s.drop_last());
        assert(fields(t) =~= fields(s).insert(s[i].0, value));
    } else {
        lemma_fields_update(s.drop_last(), i, value);
        assert(t.drop_last() =~= s.drop_last().update(i, (s[i].0, value)));
        assert(fields(t) =~= fields(s).insert(s[i].0, value));
    }
}

/// The position of the last entry under a key.
fn last_index(v: &Vec<(String, Json)>, key: &str) -> (r: Option<usize>)
    ensures
        match r {
            Some(i) => {
                &&& i < v@.len()
                &&& entries(v@)[i as int].0 == key@
                &&& forall|j: int| i < j < v@.len() ==> entries(v@)[j].0 != key@
            },
            None => forall|j: int| 0 <= j < v@.len() ==> entries(v@)[j].0 != key@,
        },
{
    let mut i: usize = v.len();
    while i > 0
        invariant
            i <= v@.len(),
            forall|j: int| i <= j < v@.len() ==> entries(v@)[j].0 != key@,
        decreases i,
    {
        if text_eq(v[i - 1].0.as_str(), key) {
            return Some(i - 1);
        }
        i = i - 1;
    }
    None
}

impl Json {
    /// The value under a key of an object.
    pub fn get(&self, key: &str) -> (r: Option<&Json>)
        ensures
            match r {
                Some(j) => self@.get(key@) == Some(j@) && decreases_to!(*self => *j),
                None => self@.get(key@) is None,
            },
    {
        match self {
            Json::Object(v) => {
                proof {
                    lemma_object_view(*v);
                }
                match last_index(v, key) {
                    Some(i) => {
                        proof {
                            lemma_fields(entries(v@), key@, i as int);
                            assert(decreases_to!(*self => self->Object_0));
                            assert(decreases_to!(*v => v@));
                            assert(decreases_to!(v@ => v@[i as int]));
                            assert(decreases_to!(v@[i as int] => v@[i as int].1));
                        }
                        Some(&v[i].1)
                    },
                    None => {
                        proof {
                            lemma_fields(entries(v@), key@, -1);
                        }
                        None
                    },
                }
            },
            _ => None,
        }
    }

    /// The text of a string.
    pub fn as_str(&self) -> (r: Option<&str>)
        ensures
            match r {
                Some(s) => self@.as_text() == Some(s@),
                None => self@.as_text() is None,
            },
    {
        match self {
            Json::Str(s) => Some(s.as_str()),
            _ => None,
        }
    }

    /// The number, if it is an integer from zero to `u64::MAX`.
    pub fn as_u64(&self) -> (r: Option<u64>)
        ensures
            match r {
                Some(n) => self@.uint() == Some(n as int),
                None => self@.uint() is None,
            },
    {
        match self {
            Json::Uint(n) => Some(*n),
            Json::Int(n) => if *n >= 0 {
                Some(*n as u64)
            } else {
                None
            },
            _ => None,
        }
    }

    /// The number, if it is an integer that fits in an `i64`.
    pub fn as_i64(&self) -> (r: Option<i64>)
        ensures
            match r {
                Some(n) => self@.sint() == Some(n as int),
                None => self@.sint() is None,
            },
    {
        match self {
            Json::Uint(n) => if *n <= i64::MAX as u64 {
                Some(*n as i64)
            } else {
                None
            },
            Json::Int(n) => Some(*n),
            _ => None,
        }
    }

    /// The value of a boolean.
    pub fn as_bool(&self) -> (r: Option<bool>)
        ensures
            r == self@.truth(),
    {
        match self {
            Json::Bool(b) => Some(*b),
            _ => None,
        }
    }

    /// The items of an array.
    pub fn as_array(&self) -> (r: Option<&Vec<Json>>)
        ensures
            match r {
                Some(v) => self@.items() == Some(trees(v@)),
                None => self@.items() is None,
            },
    {
        match self {
            Json::Array(v) => {
                proof {
                    lemma_array_view(*v);
                }
                Some(v)
            },
            _ => None,
        }
    }

    /// Whether this is an object.
    pub fn is_object(&self) -> (r: bool)
        ensures
            r == (self@ is Object),
    {
        match self {
            Json::Object(_) => true,
            _ => false,
        }
    }

    /// A string.
    pub fn text(s: &str) -> (r: Json)
        ensures
            r@ == Tree::Str(s@),
    {
        Json::Str(own(s))
    }

    /// The object without entries.
    pub fn object() -> (r: Json)
        ensures
            r@ == obj(),
    {
        let v: Vec<(String, Json)> = Vec::new();
        proof {
            lemma_object_view(v);
            assert(entries(v@) =~= Seq::empty());
        }
        Json::Object(v)
    }

    /// The array of the given items.
    pub fn array(v: Vec<Json>) -> (r: Json)
        ensures
            r@ == Tree::Array(trees(v@)),
    {
        proof {
            lemma_array_view(v);
        }
        Json::Array(v)
    }

    /// The object with the key set to the value. What is no object is
    /// replaced by one that holds the key alone.
    pub fn with(self, key: &str, value: Json) -> (r: Json)
        ensures
            r@ == self@.with(key@, value@),
    {
        match self {
            Json::Object(v) => {
                let mut v: Vec<(String, Json)> = v;
                let ghost before = entries(v@);
                proof {
                    lemma_object_view(v);
                }
                match last_index(&v, key) {
                    Some(i) => {
                        v.set(i, (own(key), value));
                        proof {
                            lemma_object_view(v);
                            lemma_fields_update(before, i as int, value@);
                            assert(entries(v@) =~= before.update(i as int, (key@, value@)));
                        }
                    },
                    None => {
                        v.push((own(key), value));
                        proof {
                            lemma_object_view(v);
                            assert(entries(v@) =~= before.push((key@, value@)));
                            assert(entries(v@).drop_last() =~= before);
                        }
                    },
                }
                Json::Object(v)
            },
            _ => {
                let mut v: Vec<(String, Json)> = Vec::new();
                v.push((own(key), value));
                proof {
                    lemma_object_view(v);
                    reveal_with_fuel(fields, 2);
                    assert(entries(v@).drop_last() =~= Seq::empty());
                    assert(entries(v@).last() == (key@, value@));
                }
                Json::Object(v)
            },
        }
    }

    /// The value under the first of two keys that an object has.
    pub fn either(&self, a: &str, b: &str) -> (r: Option<&Json>)
        ensures
            match r {
                Some(j) => self@.either(a@, b@) == Some(j@),
                None => self@.either(a@, b@) is None,
            },
    {
        match self.get(a) {
            Some(j) => Some(j),
            None => self.get(b),
        }
    }

    /// The text under the first of two keys that an object has.
    pub fn either_str(&self, a: &str, b: &str) -> (r: Option<&str>)
        ensures
            match r {
                Some(s) => self@.either_str(a@, b@) == Some(s@),
                None => self@.either_str(a@, b@) is None,
            },
    {
        match self.either(a, b) {
            Some(j) => j.as_str(),
            None => None,
        }
    }

    /// The value under a key of the object under another.
    pub fn get_in(&self, outer: &str, inner: &str) -> (r: Option<&Json>)
        ensures
            match r {
                Some(j) => self@.get_in(outer@, inner@) == Some(j@),
                None => self@.get_in(outer@, inner@) is None,
            },
    {
        match self.get(outer) {
            Some(j) => j.get(inner),
            None => None,
        }
    }

    /// The text under a key of an object.
    pub fn get_str(&self, key: &str) -> (r: Option<&str>)
        ensures
            match r {
                Some(s) => self@.get_str(key@) == Some(s@),
                None => self@.get_str(key@) is None,
            },
    {
        match self.get(key) {
            Some(j) => j.as_str(),
            None => None,
        }
    }
}

/// The position of the last entry under a key, or -1.
proof fn find_last(s: Seq<(Seq<char>, Tree)>, key: Seq<char>) -> (i: int)
    ensures
        -1 <= i < s.len(),
        forall|j: int| i < j < s.len() ==> s[j].0 != key,
        i >= 0 ==> s[i].0 == key,
    decreases s.len(),
{
    if s.len() == 0 {
        -1
    } else if s.last().0 == key {
        s.len() - 1
    } else {
        let i = find_last(s.drop_last(), key);
        assert(forall|j: int| 0 <= j < s.len() - 1 ==> s[j] == s.drop_last()[j]);
        i
    }
}

/// Whether two values are equal as JSON: numbers by what they are worth, so
/// that zero has no sign, objects by what stands under each key.
pub open spec fn same(a: Tree, b: Tree) -> bool
    decreases a,
{
    match (a, b) {
        (Tree::Float(x), Tree::Float(y)) => x == y || (zero_text(x) && zero_text(y)),
        (Tree::Array(x), Tree::Array(y)) => {
            &&& x.len() == y.len()
            &&& forall|i: int| 0 <= i < x.len() ==> same(#[trigger] x[i], y[i])
        },
        (Tree::Object(x), Tree::Object(y)) => {
            &&& x.dom() == y.dom()
            &&& forall|k: Seq<char>| x.contains_key(k) ==> same(#[trigger] x[k], y[k])
        },
        _ => a == b,
    }
}

impl Clone for Json {
    fn clone(&self) -> (r: Json)
        ensures
            r@ == self@,
    {
        self.copy()
    }
}

impl Json {
    /// An equal value.
    pub fn copy(&self) -> (r: Json)
        ensures
            r@ == self@,
        decreases self,
    {
        match self {
            Json::Null => Json::Null,
            Json::Bool(b) => Json::Bool(*b),
            Json::Uint(n) => Json::Uint(*n),
            Json::Int(n) => Json::Int(*n),
            Json::Float(f) => Json::Float(f.copy()),
            Json::Str(s) => Json::Str(own(s.as_str())),
            Json::Array(v) => {
                let mut out: Vec<Json> = Vec::new();
                let mut i: usize = 0;
                while i < v.len()
                    invariant
                        *self == Json::Array(*v),
                        i <= v@.len(),
                        out@.len() == i,
                        forall|j: int| 0 <= j < i ==> (#[trigger] out@[j])@ == v@[j]@,
                    decreases v@.len() - i,
                {
                    proof {
                        assert(decreases_to!(*self => self->Array_0));
                        assert(decreases_to!(*v => v@));
                        assert(decreases_to!(v@ => v@[i as int]));
                    }
                    out.push(v[i].copy());
                    i = i + 1;
                }
                proof {
                    lemma_array_view(*v);
                    lemma_array_view(out);
                    assert(trees(out@) =~= trees(v@));
                }
                Json::Array(out)
            },
            Json::Object(v) => {
                let mut out: Vec<(String, Json)> = Vec::new();
                let mut i: usize = 0;
                while i < v.len()
                    invariant
                        *self == Json::Object(*v),
                        i <= v@.len(),
                        out@.len() == i,
                        forall|j: int|
                            0 <= j < i ==> (#[trigger] out@[j]).0@ == v@[j].0@ && out@[j].1@
                                == v@[j].1@,
                    decreases v@.len() - i,
                {
                    let key: String = own(v[i].0.as_str());
                    proof {
                        assert(decreases_to!(*self => self->Object_0));
                        assert(decreases_to!(*v => v@));
                        assert(decreases_to!(v@ => v@[i as int]));
                    }
                    let value: Json = v[i].1.copy();
                    out.push((key, value));
                    i = i + 1;
                }
                proof {
                    lemma_object_view(*v);
                    lemma_object_view(out);
                    assert(entries(out@) =~= entries(v@));
                }
                Json::Object(out)
            },
        }
    }
}

impl Json {
    /// Whether two values are equal as JSON.
    pub fn same(&self, other: &Json) -> (r: bool)
        ensures
            r == same(self@, other@),
        decreases self,
    {
        match (self, other) {
            (Json::Null, Json::Null) => true,
            (Json::Bool(a), Json::Bool(b)) => *a == *b,
            (Json::Uint(a), Json::Uint(b)) => *a == *b,
            (Json::Int(a), Json::Int(b)) => *a == *b,
            (Json::Uint(a), Json::Int(b)) => *b >= 0 && *a == *b as u64,
            (Json::Int(a), Json::Uint(b)) => *a >= 0 && *a as u64 == *b,
            (Json::Float(a), Json::Float(b)) => {
                let x: &str = a.text();
                let y: &str = b.text();
                text_eq(x, y) || ((text_eq(x, "0.0") || text_eq(x, "-0.0")) && (text_eq(y, "0.0")
                    || text_eq(y, "-0.0")))
            },
            (Json::Str(a), Json::Str(b)) => text_eq(a.as_str(), b.as_str()),
            (Json::Array(v), Json::Array(w)) => {
                proof {
                    lemma_array_view(*v);
                    lemma_array_view(*w);
                }
                if v.len() != w.len() {
                    return false;
                }
                let mut i: usize = 0;
                while i < v.len()
                    invariant
                        *self == Json::Array(*v),
                        self@ == Tree::Array(trees(v@)),
                        other@ == Tree::Array(trees(w@)),
                        i <= v@.len() == w@.len(),
                        forall|j: int| 0 <= j < i ==> same(#[trigger] trees(v@)[j], trees(w@)[j]),
                    decreases v@.len() - i,
                {
                    let equal: bool = v[i].same(&w[i]);
                    proof {
                        assert(trees(v@)[i as int] == v@[i as int]@);
                        assert(trees(w@)[i as int] == w@[i as int]@);
                    }
                    if !equal {
                        return false;
                    }
                    i = i + 1;
                }
                true
            },
            (Json::Object(v), Json::Object(w)) => self.same_entries(v, other, w),
            _ => false,
        }
    }

    /// Whether two objects are equal as JSON.
    fn same_entries(
        &self,
        v: &Vec<(String, Json)>,
        other: &Json,
        w: &Vec<(String, Json)>,
    ) -> (r: bool)
        requires
            *self == Json::Object(*v),
            *other == Json::Object(*w),
        ensures
            r == same(self@, other@),
        decreases self, 0nat,
    {
        let ghost a = entries(v@);
        let ghost b = entries(w@);
        proof {
            lemma_object_view(*v);
            lemma_object_view(*w);
        }
        let mut i: usize = 0;
        while i < w.len()
            invariant
                self@ == Tree::Object(fields(a)),
                other@ == Tree::Object(fields(b)),
                a == entries(v@),
                b == entries(w@),
                i <= w@.len(),
                forall|j: int| 0 <= j < i ==> fields(a).contains_key((#[trigger] b[j]).0),
            decreases w@.len() - i,
        {
            match last_index(v, w[i].0.as_str()) {
                Some(k) => {
                    proof {
                        lemma_fields(a, b[i as int].0, k as int);
                    }
                },
                None => {
                    proof {
                        lemma_fields(a, b[i as int].0, -1);
                        let k = find_last(b, b[i as int].0);
                        lemma_fields(b, b[i as int].0, k);
                        assert(fields(b).dom().contains(b[i as int].0));
                        assert(!fields(a).dom().contains(b[i as int].0));
                    }
                    return false;
                },
            }
            i = i + 1;
        }
        i = 0;
        while i < v.len()
            invariant
                *self == Json::Object(*v),
                self@ == Tree::Object(fields(a)),
                other@ == Tree::Object(fields(b)),
                a == entries(v@),
                b == entries(w@),
                i <= v@.len(),
                forall|j: int|
                    0 <= j < i ==> fields(b).contains_key((#[trigger] a[j]).0) && same(
                        fields(a)[a[j].0],
                        fields(b)[a[j].0],
                    ),
            decreases v@.len() - i,
        {
            let ghost key = a[i as int].0;
            let n: usize = match last_index(v, v[i].0.as_str()) {
                Some(n) => n,
                None => i,
            };
            proof {
                lemma_fields(a, key, n as int);
            }
            match last_index(w, v[i].0.as_str()) {
                Some(k) => {
                    proof {
                        lemma_fields(b, key, k as int);
                    }
                    let equal: bool = v[n].1.same(&w[k].1);
                    if !equal {
                        proof {
                            assert(fields(a).contains_key(key));
                        }
                        return false;
                    }
                },
                None => {
                    proof {
                        lemma_fields(b, key, -1);
                        assert(fields(a).dom().contains(key));
                        assert(!fields(b).dom().contains(key));
                    }
                    return false;
                },
            }
            i = i + 1;
        }
        proof {
            let x = fields(a);
            let y = fields(b);
            assert forall|k: Seq<char>| x.contains_key(k) implies y.contains_key(k) && same(
                #[trigger] x[k],
                y[k],
            ) by {
                let n = find_last(a, k);
                lemma_fields(a, k, n);
                assert(a[n].0 == k);
            }
            assert forall|k: Seq<char>| #[trigger] y.dom().contains(k) implies x.dom().contains(
                k,
            ) by {
                let n = find_last(b, k);
                lemma_fields(b, k, n);
                assert(b[n].0 == k);
            }
            assert forall|k: Seq<char>| #[trigger] x.dom().contains(k) implies y.dom().contains(
                k,
            ) by {
                assert(same(x[k], y[k]));
            }
            assert(x.dom() =~= y.dom());
        }
        true
    }
}

} // verus!
