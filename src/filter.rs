//! The filter table and the scope match that decides which records pass.
use vstd::prelude::*;
use vstd::string::StringSliceAdditionalSpecFns;
use crate::level::{at_or_above, level_named, Level};
use crate::scope::{Scope, SCOPE_DEPTH_MAX};

verus! {

/// The separator between segments in a filter key.
pub const SCOPE_STRING_SEP: u8 = 46u8;

/// The bytes of each segment of a scope.
pub open spec fn segments(s: Scope) -> Seq<Seq<u8>> {
    Seq::new(SCOPE_DEPTH_MAX as nat, |i: int| s@[i].spec_bytes())
}

/// The first `k` segments joined by `.`.
pub open spec fn joined(segs: Seq<Seq<u8>>, k: nat) -> Seq<u8>
    decreases k,
{
    if k == 0 {
        Seq::empty()
    } else if k == 1 {
        segs[0]
    } else {
        joined(segs, (k - 1) as nat) + seq![SCOPE_STRING_SEP] + segs[k - 1]
    }
}

/// Whether the first `k` segments are all in use.
pub open spec fn prefix_in_use(segs: Seq<Seq<u8>>, k: nat) -> bool {
    forall|i: int| 0 <= i < k ==> segs[i].len() > 0
}

/// The deepest `k <= n` whose in-use prefix joins to `key`, or 0.
pub open spec fn matched_depth_upto(key: Seq<u8>, segs: Seq<Seq<u8>>, n: nat) -> nat
    decreases n,
{
    if n == 0 {
        0
    } else if prefix_in_use(segs, n) && key == joined(segs, n) {
        n
    } else {
        matched_depth_upto(key, segs, (n - 1) as nat)
    }
}

/// The depth of the scope prefix that a key names, or 0 when it names none.
pub open spec fn matched_depth(key: Seq<u8>, segs: Seq<Seq<u8>>) -> nat {
    matched_depth_upto(key, segs, SCOPE_DEPTH_MAX as nat)
}

/// How specific an entry is for a call: a scope prefix of depth `d` ranks `2 * d`,
/// the caller's full module path ranks 3 (above the component name alone, below
/// any nested scope), and a key that matches neither ranks 0.
pub open spec fn rank(key: Seq<u8>, segs: Seq<Seq<u8>>, module: Option<Seq<u8>>) -> int {
    let by_scope: int = 2 * (matched_depth(key, segs) as int);
    let by_module: int = if module == Some(key) { 3 } else { 0 };
    if by_scope >= by_module { by_scope } else { by_module }
}

/// The most specific match among the first `n` entries, with its level; a later
/// entry wins a tie.
pub open spec fn best_upto(
    entries: Seq<(Seq<u8>, Level)>,
    segs: Seq<Seq<u8>>,
    module: Option<Seq<u8>>,
    default_level: Level,
    n: nat,
) -> (int, Level)
    decreases n,
{
    if n == 0 {
        (0, default_level)
    } else {
        let prev = best_upto(entries, segs, module, default_level, (n - 1) as nat);
        let e = entries[n - 1];
        let r = rank(e.0, segs, module);
        if r > 0 && r >= prev.0 {
            (r, e.1)
        } else {
            prev
        }
    }
}

/// One entry of the table: a dot-joined scope path (or a module path) and the
/// least severe level it enables.
pub struct FilterEntry {
    pub path: String,
    pub level: Level,
}

/// The filter table: entries in insertion order and the level used when no
/// entry matches.
pub struct FilterTable {
    pub entries: Vec<FilterEntry>,
    pub default_level: Level,
}

/// The entries of a table as key bytes and levels.
pub open spec fn entries_view(entries: Seq<FilterEntry>) -> Seq<(Seq<u8>, Level)> {
    entries.map_values(|e: FilterEntry| (vstd::utf8::encode_utf8(e.path@), e.level))
}

/// The bytes of an optional module path.
pub open spec fn module_view(module: Option<&str>) -> Option<Seq<u8>> {
    match module {
        Some(m) => Some(m.spec_bytes()),
        None => None,
    }
}

/// Whether two byte strings are equal.
fn bytes_eq(a: &[u8], b: &[u8]) -> (r: bool)
    ensures
        r == (a@ == b@),
{
    if a.len() != b.len() {
        return false;
    }
    let mut i: usize = 0;
    while i < a.len()
        invariant
            a@.len() == b@.len(),
            i <= a@.len(),
            forall|j: int| 0 <= j < i ==> a@[j] == b@[j],
        decreases a@.len() - i,
    {
        if a[i] != b[i] {
            return false;
        }
        i = i + 1;
    }
    assert(a@ =~= b@);
    true
}

/// The depth of the prefix of `scope` that `key` names, or 0.
fn scope_match_depth(key: &[u8], scope: &Scope) -> (d: usize)
    ensures
        d as nat == matched_depth(key@, segments(*scope)),
        d <= SCOPE_DEPTH_MAX,
{
    let ghost segs = segments(*scope);
    let mut cur: Vec<u8> = Vec::new();
    let mut in_use = true;
    let mut best: usize = 0;
    let mut k: usize = 0;
    while k < SCOPE_DEPTH_MAX
        invariant
            k <= SCOPE_DEPTH_MAX,
            segs == segments(*scope),
            cur@ == joined(segs, k as nat),
            in_use == prefix_in_use(segs, k as nat),
            best as nat == matched_depth_upto(key@, segs, k as nat),
            best <= k,
        decreases SCOPE_DEPTH_MAX - k,
    {
        let seg = scope[k].as_bytes();
        let ghost before = cur@;
        if k > 0 {
            cur.push(SCOPE_STRING_SEP);
        }
        let ghost mid = cur@;
        let mut j: usize = 0;
        while j < seg.len()
            invariant
                j <= seg@.len(),
                cur@ == mid + seg@.subrange(0, j as int),
            decreases seg@.len() - j,
        {
            cur.push(seg[j]);
            j = j + 1;
            assert(cur@ =~= mid + seg@.subrange(0, j as int));
        }
        proof {
            assert(seg@.subrange(0, seg@.len() as int) =~= seg@);
            assert(seg@ == segs[k as int]);
            if k == 0 {
                assert(cur@ =~= segs[0]);
            }
        }
        in_use = in_use && seg.len() > 0;
        proof {
            if in_use {
                assert(prefix_in_use(segs, (k + 1) as nat));
            } else {
                assert(!prefix_in_use(segs, (k + 1) as nat));
            }
            assert(cur@ == joined(segs, (k + 1) as nat));
        }
        if in_use && bytes_eq(key, cur.as_slice()) {
            best = k + 1;
        }
        k = k + 1;
    }
    best
}

/// The rank of an entry keyed by `key` for a call from `module` on `scope`.
fn entry_rank(key: &[u8], scope: &Scope, module: Option<&str>) -> (r: u8)
    ensures
        r as int == rank(key@, segments(*scope), module_view(module)),
{
    let by_scope: u8 = 2 * (scope_match_depth(key, scope) as u8);
    let by_module: u8 = match module {
        Some(m) => if bytes_eq(m.as_bytes(), key) {
            3
        } else {
            0
        },
        None => 0,
    };
    if by_scope >= by_module {
        by_scope
    } else {
        by_module
    }
}

impl FilterTable {
    /// A table with no entries.
    pub fn new(default_level: Level) -> (t: FilterTable)
        ensures
            t.entries@.len() == 0,
            t.default_level == default_level,
    {
        FilterTable { entries: Vec::new(), default_level }
    }

    /// Replaces every entry of the table at once; the default level stays.
    pub fn refresh(&mut self, entries: Vec<FilterEntry>)
        ensures
            final(self).entries@ == entries@,
            final(self).default_level == old(self).default_level,
    {
        self.entries = entries;
    }

    /// The level that governs a call from `module` on `scope`: the most
    /// specific matching entry, or the default level when none matches.
    pub fn resolve(&self, scope: &Scope, module: Option<&str>) -> (l: Level)
        ensures
            l == self.resolved(segments(*scope), module_view(module)),
    {
        let ghost ents = self.view_entries();
        let ghost segs = segments(*scope);
        let ghost mv = module_view(module);
        let mut best_rank: u8 = 0;
        let mut best_level = self.default_level;
        let mut i: usize = 0;
        while i < self.entries.len()
            invariant
                i <= self.entries@.len(),
                ents == self.view_entries(),
                segs == segments(*scope),
                mv == module_view(module),
                (best_rank as int, best_level) == best_upto(
                    ents,
                    segs,
                    mv,
                    self.default_level,
                    i as nat,
                ),
            decreases self.entries@.len() - i,
        {
            let e = &self.entries[i];
            let r = entry_rank(e.path.as_str().as_bytes(), scope, module);
            if r > 0 && r >= best_rank {
                best_rank = r;
                best_level = e.level;
            }
            i = i + 1;
        }
        best_level
    }
}

/// The entries a settings map gives, in its order: each key with the level its
/// value names; a value that names no level gives no entry.
pub open spec fn settings_entries(s: Seq<(String, String)>) -> Seq<(Seq<u8>, Level)>
    decreases s.len(),
{
    if s.len() == 0 {
        Seq::empty()
    } else {
        let prev = settings_entries(s.drop_last());
        match level_named(s.last().1@) {
            Some(l) => prev.push((vstd::utf8::encode_utf8(s.last().0@), l)),
            None => prev,
        }
    }
}

impl FilterTable {
    /// Replaces every entry of the table at once with those of a settings map
    /// from scope path to level name; the default level stays.
    pub fn refresh_from_settings(&mut self, settings: &Vec<(String, String)>)
        ensures
            final(self).view_entries() == settings_entries(settings@),
            final(self).default_level == old(self).default_level,
    {
        let mut entries: Vec<FilterEntry> = Vec::new();
        let mut i: usize = 0;
        while i < settings.len()
            invariant
                i <= settings@.len(),
                entries_view(entries@) == settings_entries(settings@.subrange(0, i as int)),
            decreases settings@.len() - i,
        {
            let (key, value) = &settings[i];
            let ghost before = entries@;
            proof {
                assert(settings@.subrange(0, (i + 1) as int).drop_last() =~= settings@.subrange(0, i as int));
            }
            match Level::from_name(value.as_str()) {
                Some(level) => {
                    entries.push(FilterEntry { path: key.clone(), level });
                    assert(entries_view(entries@) =~= entries_view(before).push(
                        (vstd::utf8::encode_utf8(key@), level),
                    ));
                },
                None => {},
            }
            i = i + 1;
        }
        assert(settings@.subrange(0, settings@.len() as int) =~= settings@);
        self.refresh(entries);
    }
}

/// The scope match: whether a record at `level` from `module` on `scope` is at
/// or above the level that the table resolves for it.
pub fn is_scope_enabled(table: &FilterTable, scope: &Scope, module: Option<&str>, level: Level) -> (r: bool)
    ensures
        r == at_or_above(level, table.resolved(segments(*scope), module_view(module))),
{
    let min = table.resolve(scope, module);
    level.severity() >= min.severity()
}

impl FilterTable {
    pub open spec fn view_entries(&self) -> Seq<(Seq<u8>, Level)> {
        entries_view(self.entries@)
    }

    /// The level that governs a call from `module` on scope `segs`.
    pub open spec fn resolved(&self, segs: Seq<Seq<u8>>, module: Option<Seq<u8>>) -> Level {
        best_upto(
            self.view_entries(),
            segs,
            module,
            self.default_level,
            self.entries@.len(),
        ).1
    }
}

/// Whether exactly the first `d` of the segments are in use.
pub open spec fn has_depth(segs: Seq<Seq<u8>>, d: nat) -> bool {
    &&& segs.len() == SCOPE_DEPTH_MAX
    &&& 1 <= d <= SCOPE_DEPTH_MAX
    &&& prefix_in_use(segs, d)
    &&& forall|i: int| d <= i < SCOPE_DEPTH_MAX ==> segs[i].len() == 0
}

/// Whether `child` is `parent`, of depth `d`, with one more segment.
pub open spec fn is_child_of(child: Seq<Seq<u8>>, parent: Seq<Seq<u8>>, d: nat) -> bool {
    &&& has_depth(parent, d)
    &&& has_depth(child, d + 1)
    &&& forall|i: int| 0 <= i < d ==> child[i] == parent[i]
}

proof fn lemma_joined_agree(a: Seq<Seq<u8>>, b: Seq<Seq<u8>>, k: nat)
    requires
        forall|i: int| 0 <= i < k ==> a[i] == b[i],
    ensures
        joined(a, k) == joined(b, k),
    decreases k,
{
    if k > 1 {
        lemma_joined_agree(a, b, (k - 1) as nat);
    }
}

proof fn lemma_child_depth(key: Seq<u8>, child: Seq<Seq<u8>>, parent: Seq<Seq<u8>>, d: nat, n: nat)
    requires
        is_child_of(child, parent, d),
        n <= SCOPE_DEPTH_MAX,
    ensures
        matched_depth_upto(key, child, n) == if n >= d + 1 && key == joined(child, d + 1) {
            d + 1
        } else {
            matched_depth_upto(key, parent, n)
        },
    decreases n,
{
    if n > 0 {
        lemma_child_depth(key, child, parent, d, (n - 1) as nat);
        if n <= d {
            lemma_joined_agree(child, parent, n);
            assert(prefix_in_use(child, n) == prefix_in_use(parent, n));
        } else if n == d + 1 {
            assert(parent[d as int].len() == 0);
            assert(!prefix_in_use(parent, n));
        } else {
            assert(child[(d + 1) as int].len() == 0);
            assert(!prefix_in_use(child, n));
            assert(parent[d as int].len() == 0);
            assert(!prefix_in_use(parent, n));
        }
    }
}

proof fn lemma_best_agree(
    entries: Seq<(Seq<u8>, Level)>,
    a: Seq<Seq<u8>>,
    b: Seq<Seq<u8>>,
    module: Option<Seq<u8>>,
    default_level: Level,
    n: nat,
)
    requires
        n <= entries.len(),
        forall|i: int| 0 <= i < n ==> rank(entries[i].0, a, module) == rank(entries[i].0, b, module),
    ensures
        best_upto(entries, a, module, default_level, n) == best_upto(entries, b, module, default_level, n),
    decreases n,
{
    if n > 0 {
        lemma_best_agree(entries, a, b, module, default_level, (n - 1) as nat);
    }
}

/// A nested scope inherits its parent's filter: when no entry names the nested
/// scope's full path, the table resolves the same level for parent and child,
/// so the child is enabled at every level at which the parent is.
pub proof fn lemma_child_inherits_parent(
    table: &FilterTable,
    child: Scope,
    parent: Scope,
    d: nat,
    module: Option<Seq<u8>>,
    level: Level,
)
    requires
        is_child_of(segments(child), segments(parent), d),
        forall|i: int|
            0 <= i < table.entries@.len() ==> table.view_entries()[i].0 != joined(
                segments(child),
                d + 1,
            ),
    ensures
        table.resolved(segments(child), module) == table.resolved(segments(parent), module),
        at_or_above(level, table.resolved(segments(parent), module)) ==> at_or_above(
            level,
            table.resolved(segments(child), module),
        ),
{
    let ents = table.view_entries();
    assert forall|i: int| 0 <= i < table.entries@.len() implies rank(
        ents[i].0,
        segments(child),
        module,
    ) == rank(ents[i].0, segments(parent), module) by {
        lemma_child_depth(ents[i].0, segments(child), segments(parent), d, SCOPE_DEPTH_MAX as nat);
    }
    lemma_best_agree(
        ents,
        segments(child),
        segments(parent),
        module,
        table.default_level,
        table.entries@.len(),
    );
}

proof fn lemma_depth_upto_bound(key: Seq<u8>, segs: Seq<Seq<u8>>, n: nat)
    ensures
        matched_depth_upto(key, segs, n) <= n,
        matched_depth_upto(key, segs, n) > 0 ==> key == joined(
            segs,
            matched_depth_upto(key, segs, n),
        ),
    decreases n,
{
    if n > 0 {
        lemma_depth_upto_bound(key, segs, (n - 1) as nat);
    }
}

proof fn lemma_depth_at_most(key: Seq<u8>, segs: Seq<Seq<u8>>, d: nat, n: nat)
    requires
        has_depth(segs, d),
        d <= n <= SCOPE_DEPTH_MAX,
    ensures
        matched_depth_upto(key, segs, n) <= d,
        matched_depth_upto(key, segs, n) == d <==> key == joined(segs, d),
    decreases n,
{
    lemma_depth_upto_bound(key, segs, (d - 1) as nat);
    if n > d {
        assert(segs[d as int].len() == 0);
        assert(!prefix_in_use(segs, n));
        lemma_depth_at_most(key, segs, d, (n - 1) as nat);
    }
}

proof fn lemma_best_specific(
    entries: Seq<(Seq<u8>, Level)>,
    segs: Seq<Seq<u8>>,
    d: nat,
    module: Option<Seq<u8>>,
    default_level: Level,
    i: int,
    lv: Level,
    n: nat,
)
    requires
        has_depth(segs, d),
        d >= 2,
        n <= entries.len(),
        0 <= i < entries.len(),
        entries[i].0 == joined(segs, d),
        forall|j: int| 0 <= j < entries.len() && entries[j].0 == joined(segs, d) ==> entries[j].1 == lv,
    ensures
        best_upto(entries, segs, module, default_level, n).0 <= 2 * d,
        n > i ==> best_upto(entries, segs, module, default_level, n) == (2 * (d as int), lv),
    decreases n,
{
    if n > 0 {
        lemma_best_specific(entries, segs, d, module, default_level, i, lv, (n - 1) as nat);
        lemma_depth_at_most(entries[n - 1].0, segs, d, SCOPE_DEPTH_MAX as nat);
    }
}

/// A specific entry wins over a more general one, wherever either stands in the
/// table: on a nested scope (depth two or more), the entry naming its full path
/// decides the level.
pub proof fn lemma_specific_entry_wins(
    table: &FilterTable,
    scope: Scope,
    d: nat,
    module: Option<Seq<u8>>,
    i: int,
)
    requires
        has_depth(segments(scope), d),
        d >= 2,
        0 <= i < table.entries@.len(),
        table.view_entries()[i].0 == joined(segments(scope), d),
        forall|j: int|
            0 <= j < table.entries@.len() && table.view_entries()[j].0 == joined(
                segments(scope),
                d,
            ) ==> table.view_entries()[j].1 == table.view_entries()[i].1,
    ensures
        table.resolved(segments(scope), module) == table.entries@[i].level,
{
    lemma_best_specific(
        table.view_entries(),
        segments(scope),
        d,
        module,
        table.default_level,
        i,
        table.view_entries()[i].1,
        table.entries@.len(),
    );
}

/// Whether a record passes: the global gate, then the scope match.
pub open spec fn enabled(
    max_level: Level,
    table: &FilterTable,
    segs: Seq<Seq<u8>>,
    module: Option<Seq<u8>>,
    level: Level,
) -> bool {
    at_or_above(level, max_level) && at_or_above(level, table.resolved(segs, module))
}

/// Whether a record at `level` from `module` on `scope` is emitted: the cheap
/// global gate first, and the scope match only when it passes.
pub fn is_enabled(
    max_level: Level,
    table: &FilterTable,
    scope: &Scope,
    module: Option<&str>,
    level: Level,
) -> (r: bool)
    ensures
        r == enabled(max_level, table, segments(*scope), module_view(module), level),
{
    crate::level::is_possibly_enabled_level(level, max_level) && is_scope_enabled(
        table,
        scope,
        module,
        level,
    )
}

/// The global gate dominates: at a maximum of `Error` no record below `Error`
/// passes, whatever the table says, and at `Trace` every record that the
/// table allows passes.
pub proof fn lemma_global_gate(
    table: &FilterTable,
    segs: Seq<Seq<u8>>,
    module: Option<Seq<u8>>,
    level: Level,
)
    ensures
        level != Level::Error ==> !enabled(Level::Error, table, segs, module, level),
        enabled(Level::Trace, table, segs, module, level) == at_or_above(
            level,
            table.resolved(segs, module),
        ),
{
}

} // verus!
