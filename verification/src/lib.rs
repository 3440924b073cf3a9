//! A small greeting and text library: integer addition, character-wise string
//! reversal, and a name-holding record with a greeting method.

use vstd::prelude::*;
use vstd::string::StrSliceExecFns;
use vstd::string::StringExecFns;

verus! {

/// The mathematical sum that `add` computes.
pub open spec fn add_spec(a: int, b: int) -> int {
    a + b
}

/// Returns the sum of the two arguments.
pub fn add(left: i32, right: i32) -> (r: i32)
    requires
        i32::MIN <= left + right <= i32::MAX,
    ensures
        r == add_spec(left as int, right as int),
{
    left + right
}

/// Addition is commutative: the order of the two summands does not matter.
pub proof fn lemma_add_commutative(a: int, b: int)
    ensures
        add_spec(a, b) == add_spec(b, a),
{
}

/// Zero is the identity of addition.
pub proof fn lemma_add_identity(a: int)
    ensures
        add_spec(a, 0) == a,
{
}

/// A character sequence in reverse order.
pub open spec fn reverse_seq(s: Seq<char>) -> Seq<char> {
    Seq::new(s.len(), |i: int| s[s.len() - 1 - i])
}

/// Returns the input with its characters (Unicode scalar values, not bytes)
/// in reverse order.
pub fn reverse_string(input: String) -> (r: String)
    ensures
        r@ == reverse_seq(input@),
{
    let s: &str = input.as_str();
    let n: usize = s.unicode_len();
    let mut out = String::new();
    let mut i: usize = n;
    while i > 0
        invariant
            n == s@.len(),
            s@ == input@,
            i <= n,
            out@ == reverse_seq(input@).subrange(0, n - i),
        decreases i,
    {
        i = i - 1;
        let piece = s.substring_char(i, i + 1);
        out.append(piece);
        proof {
            assert(out@ =~= reverse_seq(input@).subrange(0, n - i));
        }
    }
    proof {
        assert(out@ =~= reverse_seq(input@));
    }
    out
}

/// Reversal is an involution: reversing twice gives the original sequence back.
pub proof fn lemma_reverse_involution(s: Seq<char>)
    ensures
        reverse_seq(reverse_seq(s)) == s,
{
    assert(reverse_seq(reverse_seq(s)) =~= s);
}

/// A record holding one name, set at construction and immutable thereafter.
pub struct Person {
    name: String,
}

impl View for Person {
    type V = Seq<char>;

    closed spec fn view(&self) -> Seq<char> {
        self.name@
    }
}

/// The greeting formed for a name: the name interpolated into a fixed template.
pub open spec fn greeting(name: Seq<char>) -> Seq<char> {
    "Hello, "@ + name + "!"@
}

impl Person {
    /// Returns the greeting for the held name.
    pub fn say_hello(&self) -> (r: String)
        ensures
            r@ == greeting(self@),
    {
        let mut out = String::from_str("Hello, ");
        out.append(self.name.as_str());
        out.append("!");
        out
    }
}

/// Constructs a `Person` owning the given name. Any name is accepted,
/// the empty one included.
pub fn new_person(name: String) -> (p: Person)
    ensures
        p@ == name@,
{
    Person { name }
}

/// `haystack` holds `needle` as a contiguous run starting at index `i`.
pub open spec fn occurs_at(haystack: Seq<char>, needle: Seq<char>, i: int) -> bool {
    0 <= i && i + needle.len() <= haystack.len() && haystack.subrange(i, i + needle.len())
        == needle
}

/// `haystack` holds `needle` as a contiguous run somewhere.
pub open spec fn has_substring(haystack: Seq<char>, needle: Seq<char>) -> bool {
    exists|i: int| occurs_at(haystack, needle, i)
}

/// The greeting for a non-empty name contains that name as a substring.
pub proof fn lemma_greeting_contains_name(name: Seq<char>)
    requires
        name.len() > 0,
    ensures
        has_substring(greeting(name), name),
{
    reveal_strlit("Hello, ");
    reveal_strlit("!");
    assert(greeting(name).subrange(7, 7 + name.len() as int) =~= name);
    assert(occurs_at(greeting(name), name, 7));
}

} // verus!
