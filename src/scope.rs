//! Scopes and the derivation of a component name from a module path.
use vstd::prelude::*;
use vstd::string::StringSliceAdditionalSpecFns;

verus! {

broadcast use vstd::utf8::group_utf8_lib;

/// The greatest number of segments in a scope.
pub const SCOPE_DEPTH_MAX: usize = 4;

/// A fixed-size scope: leading segments in use, unused slots empty.
pub type Scope = [&'static str; SCOPE_DEPTH_MAX];

/// A scope whose segments are owned.
pub type ScopeAlloc = [String; SCOPE_DEPTH_MAX];

/// The byte of the two-character namespace marker `::`.
pub open spec fn is_marker_at(b: Seq<u8>, i: int) -> bool {
    0 <= i && i + 1 < b.len() && b[i] == 58u8 && b[i + 1] == 58u8
}

/// Position of the first complete marker at or after `i`, or the length when none.
pub open spec fn first_marker_from(b: Seq<u8>, i: int) -> int
    decreases b.len() - i,
{
    if i < 0 || i + 1 >= b.len() {
        b.len() as int
    } else if is_marker_at(b, i) {
        i
    } else {
        first_marker_from(b, i + 1)
    }
}

/// The owning component of a module path: everything before the first `::`.
pub open spec fn crate_name_of(b: Seq<u8>) -> Seq<u8> {
    b.subrange(0, first_marker_from(b, 0))
}

proof fn lemma_first_marker_bounds(b: Seq<u8>, i: int)
    requires
        0 <= i,
    ensures
        first_marker_from(b, i) <= b.len(),
        i <= b.len() ==> i <= first_marker_from(b, i),
        forall|j: int| i <= j < first_marker_from(b, i) ==> !is_marker_at(b, j),
        first_marker_from(b, i) < b.len() ==> is_marker_at(b, first_marker_from(b, i)),
    decreases b.len() - i,
{
    if i + 1 >= b.len() {
        assert forall|j: int| i <= j < first_marker_from(b, i) implies !is_marker_at(b, j) by {}
    } else if is_marker_at(b, i) {
    } else {
        lemma_first_marker_bounds(b, i + 1);
    }
}

proof fn lemma_no_marker_from(b: Seq<u8>, i: int)
    requires
        0 <= i <= b.len(),
        forall|j: int| i <= j ==> !is_marker_at(b, j),
    ensures
        first_marker_from(b, i) == b.len(),
    decreases b.len() - i,
{
    if i + 1 < b.len() {
        lemma_no_marker_from(b, i + 1);
    }
}

/// Deriving the component name again from a component name changes nothing:
/// it holds no further marker.
pub proof fn lemma_crate_name_idempotent(p: Seq<u8>)
    ensures
        crate_name_of(crate_name_of(p)) == crate_name_of(p),
{
    let c = crate_name_of(p);
    lemma_first_marker_bounds(p, 0);
    assert forall|j: int| 0 <= j implies !is_marker_at(c, j) by {
        if is_marker_at(c, j) {
            assert(is_marker_at(p, j));
        }
    }
    lemma_no_marker_from(c, 0);
    assert(c.subrange(0, c.len() as int) == c);
}

/// Returns the leading segment of `path`, up to the first complete `::`,
/// or the whole path when it holds none.
pub fn extract_crate_name_from_module_path(path: &str) -> (r: &str)
    ensures
        r.spec_bytes() == crate_name_of(path.spec_bytes()),
{
    let path_bytes = path.as_bytes();
    let ghost b = path.spec_bytes();
    let mut i: usize = 0;
    let mut index: usize = path_bytes.len();
    proof {
        lemma_first_marker_bounds(b, 0);
    }
    let mut found = false;
    while !found && i < path_bytes.len() && i + 1 < path_bytes.len()
        invariant
            path_bytes@ == b,
            i <= b.len(),
            first_marker_from(b, i as int) == first_marker_from(b, 0),
            found ==> index == i && is_marker_at(b, i as int),
            !found ==> index == b.len(),
        decreases b.len() - i, if found { 0int } else { 1int },
    {
        if path_bytes[i] == 58u8 && path_bytes[i + 1] == 58u8 {
            index = i;
            found = true;
        } else {
            i = i + 1;
        }
    }
    proof {
        vstd::utf8::encode_utf8_valid_utf8(path@);
        if index < b.len() {
            assert(!vstd::utf8::is_continuation_byte(b[index as int]));
            vstd::utf8::is_char_boundary_iff_not_is_continuation_byte(b, index as int);
        } else {
            vstd::utf8::is_char_boundary_start_end_of_seq(b);
        }
    }
    let (crate_name, _) = path.split_at(index);
    crate_name
}

/// Whether `seg` is an unused scope slot.
pub open spec fn is_empty_segment(seg: &str) -> bool {
    seg@.len() == 0
}

/// The scope holding `scopes` in its leading slots and empty strings after them.
pub open spec fn is_scope_of(s: Scope, scopes: Seq<&'static str>) -> bool {
    forall|i: int|
        #![trigger s@[i]]
        0 <= i < SCOPE_DEPTH_MAX ==> if i < scopes.len() {
            s@[i] == scopes[i]
        } else {
            is_empty_segment(s@[i])
        }
}

/// Builds a scope from at most `SCOPE_DEPTH_MAX` segments.
pub fn scope_new(scopes: &[&'static str]) -> (r: Scope)
    requires
        scopes@.len() <= SCOPE_DEPTH_MAX,
    ensures
        is_scope_of(r, scopes@),
{
    let mut scope: Scope = ["", "", "", ""];
    proof {
        reveal_strlit("");
    }
    let mut i: usize = 0;
    while i < scopes.len()
        invariant
            scopes@.len() <= SCOPE_DEPTH_MAX,
            i <= scopes@.len(),
            forall|j: int| 0 <= j < i ==> scope@[j] == scopes@[j],
            forall|j: int| i <= j < SCOPE_DEPTH_MAX ==> is_empty_segment(scope@[j]),
        decreases scopes@.len() - i,
    {
        scope[i] = scopes[i];
        i = i + 1;
    }
    scope
}

/// The owned scope holding copies of `scopes` in its leading slots.
pub open spec fn is_alloc_scope_of(s: ScopeAlloc, scopes: Seq<&str>) -> bool {
    forall|i: int|
        #![trigger s@[i]]
        0 <= i < SCOPE_DEPTH_MAX ==> if i < scopes.len() {
            s@[i]@ == scopes[i]@
        } else {
            s@[i]@.len() == 0
        }
}

/// Builds an owned scope from at most `SCOPE_DEPTH_MAX` segments.
pub fn scope_alloc_new(scopes: &[&str]) -> (r: ScopeAlloc)
    requires
        scopes@.len() <= SCOPE_DEPTH_MAX,
    ensures
        is_alloc_scope_of(r, scopes@),
{
    let mut scope: ScopeAlloc = [String::new(), String::new(), String::new(), String::new()];
    let mut i: usize = 0;
    while i < scopes.len()
        invariant
            scopes@.len() <= SCOPE_DEPTH_MAX,
            i <= scopes@.len(),
            forall|j: int| 0 <= j < i ==> scope@[j]@ == scopes@[j]@,
            forall|j: int| i <= j < SCOPE_DEPTH_MAX ==> scope@[j]@.len() == 0,
        decreases scopes@.len() - i,
    {
        scope[i] = scopes[i].to_owned();
        i = i + 1;
    }
    scope
}

/// Copies every segment of `scope` into an owned scope.
pub fn scope_to_alloc(scope: &Scope) -> (r: ScopeAlloc)
    ensures
        forall|i: int| 0 <= i < SCOPE_DEPTH_MAX ==> r@[i]@ == scope@[i]@,
{
    let mut out: ScopeAlloc = [String::new(), String::new(), String::new(), String::new()];
    let mut i: usize = 0;
    while i < SCOPE_DEPTH_MAX
        invariant
            i <= SCOPE_DEPTH_MAX,
            forall|j: int| 0 <= j < i ==> out@[j]@ == scope@[j]@,
        decreases SCOPE_DEPTH_MAX - i,
    {
        out[i] = scope[i].to_owned();
        i = i + 1;
    }
    out
}

/// Whether two strings hold the same characters.
pub(crate) fn str_eq(a: &str, b: &str) -> (r: bool)
    ensures
        r == (a@ == b@),
{
    let x = a.as_bytes();
    let y = b.as_bytes();
    proof {
        vstd::utf8::encode_utf8_decode_utf8(a@);
        vstd::utf8::encode_utf8_decode_utf8(b@);
    }
    if x.len() != y.len() {
        return false;
    }
    let mut i: usize = 0;
    while i < x.len()
        invariant
            x@.len() == y@.len(),
            x@ == a.spec_bytes(),
            y@ == b.spec_bytes(),
            i <= x@.len(),
            forall|j: int| 0 <= j < i ==> x@[j] == y@[j],
        decreases x@.len() - i,
    {
        if x[i] != y[i] {
            assert(x@ != y@);
            return false;
        }
        i = i + 1;
    }
    assert(x@ =~= y@);
    true
}

} // verus!
