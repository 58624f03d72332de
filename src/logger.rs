//! Loggers, scoped derivation and the dispatch decision.
use vstd::prelude::*;
use vstd::string::StringSliceAdditionalSpecFns;
use crate::filter::{enabled, is_enabled, module_view, segments, FilterTable};
use crate::level::Level;
use crate::scope::{
    crate_name_of, extract_crate_name_from_module_path, is_empty_segment, is_scope_of, scope_new,
    Scope, SCOPE_DEPTH_MAX,
};

verus! {

/// A handle on one scope, used to emit records and to derive nested loggers.
#[derive(Clone, Copy, Debug, PartialEq, Eq, PartialOrd, Ord, Hash)]
pub struct Logger {
    pub scope: Scope,
}

/// One record that passed both gates, without its message: the caller formats
/// the message only once it holds a record.
#[derive(Clone, Copy, Debug, PartialEq, Eq)]
pub struct Record {
    pub scope: Scope,
    pub level: Level,
    pub origin: Option<&'static str>,
}

/// The first unused slot at or after `i`, or `SCOPE_DEPTH_MAX` when all are used.
pub open spec fn first_free_from(s: Seq<&'static str>, i: int) -> int
    decreases SCOPE_DEPTH_MAX - i,
{
    if i < 0 || i >= SCOPE_DEPTH_MAX {
        SCOPE_DEPTH_MAX as int
    } else if is_empty_segment(s[i]) {
        i
    } else {
        first_free_from(s, i + 1)
    }
}

/// The scope of a logger derived from `s` with the nested segment `name`: the
/// first free slot after the component name is filled, or nothing changes when
/// none is free.
pub open spec fn child_scope(s: Seq<&'static str>, name: &'static str) -> Seq<&'static str> {
    let i = first_free_from(s, 1);
    if i < SCOPE_DEPTH_MAX {
        s.update(i, name)
    } else {
        s
    }
}

/// The default logger of the component that owns `path`: its scope holds the
/// component name alone.
pub fn default_logger(path: &'static str) -> (r: Logger)
    ensures
        r.scope@[0].spec_bytes() == crate_name_of(path.spec_bytes()),
        forall|i: int| 1 <= i < SCOPE_DEPTH_MAX ==> is_empty_segment(r.scope@[i]),
{
    let name: &'static str = extract_crate_name_from_module_path(path);
    let names: [&'static str; 1] = [name];
    let scope = scope_new(names.as_slice());
    proof {
        assert(names@ =~= seq![name]);
        assert(scope@[0] == name);
        assert forall|i: int| 1 <= i < SCOPE_DEPTH_MAX implies is_empty_segment(scope@[i]) by {
            assert(!(i < names@.len()));
        }
    }
    Logger { scope }
}

impl Logger {
    /// Derives a logger for a nested activity named `name`. When every slot is
    /// already in use the new segment is dropped and the scope is kept as it is.
    pub fn scoped(&self, name: &'static str) -> (r: Logger)
        ensures
            r.scope@ == child_scope(self.scope@, name),
            first_free_from(self.scope@, 1) >= SCOPE_DEPTH_MAX ==> r == *self,
    {
        let mut scope = self.scope;
        let mut index: usize = 1;
        while index < SCOPE_DEPTH_MAX && !scope[index].is_empty()
            invariant
                1 <= index <= SCOPE_DEPTH_MAX,
                scope == self.scope,
                first_free_from(scope@, index as int) == first_free_from(scope@, 1),
            decreases SCOPE_DEPTH_MAX - index,
        {
            index = index + 1;
        }
        if index >= SCOPE_DEPTH_MAX {
            return *self;
        }
        scope[index] = name;
        proof {
            assert(scope@ =~= self.scope@.update(index as int, name));
        }
        Logger { scope }
    }

    /// The record to hand to the sink for a call at `level` from `module`, or
    /// `None` when the global gate or the scope match withholds it.
    pub fn record(
        &self,
        max_level: Level,
        table: &FilterTable,
        module: Option<&'static str>,
        level: Level,
    ) -> (r: Option<Record>)
        ensures
            r is Some <==> enabled(
                max_level,
                table,
                segments(self.scope),
                module_view(module),
                level,
            ),
            r is Some ==> r == Some(Record { scope: self.scope, level, origin: module }),
    {
        if is_enabled(max_level, table, &self.scope, module, level) {
            Some(Record { scope: self.scope, level, origin: module })
        } else {
            None
        }
    }
}

/// The process-wide backend, for records that arrive with a module path rather
/// than a logger.
pub struct Zlog {}

/// The scope a backend record is filtered by: the component name of its module
/// path, or no segment at all when it has none.
pub open spec fn crate_segments(module: Option<&'static str>) -> Seq<Seq<u8>> {
    match module {
        Some(p) => seq![crate_name_of(p.spec_bytes()), Seq::empty(), Seq::empty(), Seq::empty()],
        None => seq![Seq::empty(), Seq::empty(), Seq::empty(), Seq::empty()],
    }
}

impl Zlog {
    /// The record to hand to the sink for a backend call at `level` from
    /// `module` (in `file`), or `None` when it is withheld. It is filtered by
    /// its component name and module path, and carries its full module path
    /// (or `*unknown*`) as its scope.
    pub fn route(
        &self,
        max_level: Level,
        table: &FilterTable,
        module: Option<&'static str>,
        file: Option<&'static str>,
        level: Level,
    ) -> (r: Option<Record>)
        ensures
            r is Some <==> enabled(
                max_level,
                table,
                crate_segments(module),
                module_view(module),
                level,
            ),
            r matches Some(rec) ==> {
                &&& rec.level == level
                &&& rec.origin == if module is Some {
                    module
                } else {
                    file
                }
                &&& match module {
                    Some(p) => rec.scope@[0] == p,
                    None => rec.scope@[0]@ == "*unknown*"@,
                }
                &&& forall|i: int| 1 <= i < SCOPE_DEPTH_MAX ==> is_empty_segment(rec.scope@[i])
            },
    {
        if !crate::level::is_possibly_enabled_level(level, max_level) {
            return None;
        }
        let empty: [&'static str; 0] = [];
        let (crate_name_scope, module_scope) = match module {
            Some(p) => {
                let names: [&'static str; 1] = [extract_crate_name_from_module_path(p)];
                let paths: [&'static str; 1] = [p];
                (scope_new(names.as_slice()), scope_new(paths.as_slice()))
            },
            None => {
                let unknown: [&'static str; 1] = ["*unknown*"];
                (scope_new(empty.as_slice()), scope_new(unknown.as_slice()))
            },
        };
        proof {
            reveal_strlit("");
            assert(segments(crate_name_scope) =~= crate_segments(module));
        }
        if !crate::filter::is_scope_enabled(table, &crate_name_scope, module, level) {
            return None;
        }
        let origin = match module {
            Some(p) => Some(p),
            None => file,
        };
        Some(Record { scope: module_scope, level, origin })
    }
}

} // verus!
