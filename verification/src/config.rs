//! The submission configuration: the untrusted source text, the compile
//! target, the memory and time budgets, and the registered boundary
//! types.  Builder methods return the updated configuration.

use vstd::prelude::*;
use vstd::string::StringExecFns;
use crate::errors::UntRustedError;
use crate::model::Item;
use crate::plan::{
    plan_rewritten_source, augmented_source, fault_items, plan_txt_items, registry_names, use_line,
};
use crate::model::items_text;

verus! {

/// A type whose definition the embedding application exposes to
/// submissions; the configuration records its name and its literal
/// definition text.
pub trait ExportedHostType {
    fn typename() -> &'static str;

    fn typedef_as_string() -> &'static str;
}

/// The compile target for the sandbox artifact: `Lightweight` builds for
/// the bare no-host-access triple, `Wasi` for the POSIX-emulating triple
/// (still sandboxed at the call boundary).
#[derive(Debug, Copy, Clone, PartialEq, Eq, Structural)]
pub enum WasmCompileTarget {
    Lightweight,
    Wasi,
}

/// The target triple a compile target selects.
pub open spec fn triple_of(t: WasmCompileTarget) -> Seq<char> {
    match t {
        WasmCompileTarget::Lightweight => "wasm32-unknown-unknown"@,
        WasmCompileTarget::Wasi => "wasm32-wasi"@,
    }
}

impl Default for WasmCompileTarget {
    fn default() -> (r: Self)
        ensures
            r == WasmCompileTarget::Lightweight,
    {
        WasmCompileTarget::Lightweight
    }
}

impl WasmCompileTarget {
    pub fn as_str(&self) -> (r: &str)
        ensures
            r@ == triple_of(*self),
    {
        match self {
            WasmCompileTarget::Lightweight => "wasm32-unknown-unknown",
            WasmCompileTarget::Wasi => "wasm32-wasi",
        }
    }
}

/// The memory budget handed to the sandbox runtime: a ceiling on the
/// number of memory pages a loaded instance may allocate, or no ceiling.
#[derive(Debug, Clone)]
pub struct MemoryOptions {
    pub max_pages: Option<u32>,
}

impl Default for MemoryOptions {
    fn default() -> (r: Self)
        ensures
            r.max_pages is None,
    {
        MemoryOptions { max_pages: None }
    }
}

/// Relies on `page_size::get`: the number of bytes in one page of memory
/// on this machine.  Every platform branch of its source returns a
/// positive count (a queried page size, or a fixed positive fallback),
/// so the result is at least one.
#[verifier::external_body]
pub fn get_page_size() -> (r: usize)
    ensures
        r >= 1,
{
    page_size::get()
}

/// The whole number of pages covering `bytes` bytes, rounding up; a zero
/// page size yields a zero-page (fail-closed) budget.
pub open spec fn pages_for_bytes(bytes: nat, page: nat) -> nat {
    if page == 0 {
        0
    } else if bytes % page == 0 {
        bytes / page
    } else {
        bytes / page + 1
    }
}

/// The page count as the sandbox runtime receives it: the covering page
/// count, saturated at the largest expressible value.
pub open spec fn sat_pages(bytes: nat, page: nat) -> u32 {
    if pages_for_bytes(bytes, page) <= u32::MAX {
        pages_for_bytes(bytes, page) as u32
    } else {
        u32::MAX
    }
}

/// Converts a byte budget to a page count for the given page size,
/// saturating at the largest expressible page count.
pub fn pages_from(num_bytes: usize, page_size: usize) -> (p: u32)
    ensures
        p == sat_pages(num_bytes as nat, page_size as nat),
{
    if page_size == 0 {
        return 0;
    }
    let d: usize = num_bytes / page_size;
    let m: usize = num_bytes % page_size;
    let q: usize = if m == 0 {
        d
    } else {
        proof {
            vstd::arithmetic::div_mod::lemma_fundamental_div_mod(
                num_bytes as int,
                page_size as int,
            );
            assert((d as int) <= (page_size as int) * (d as int)) by (nonlinear_arith)
                requires
                    (page_size as int) >= 1,
                    (d as int) >= 0,
            ;
            assert(d < usize::MAX);
        }
        d + 1
    };
    if q > u32::MAX as usize {
        u32::MAX
    } else {
        #[verifier::truncate]
        (q as u32)
    }
}

/// The registered host types with every entry of the given name removed.
pub open spec fn minus_host_name(hosts: Seq<(String, String)>, n: Seq<char>) -> Seq<
    (String, String),
> {
    hosts.filter(|p: (String, String)| p.0@ != n)
}

/// True when a name is already registered as an external type.
pub open spec fn has_sdk_name(sdks: Seq<String>, n: Seq<char>) -> bool {
    exists|i: int| 0 <= i < sdks.len() && #[trigger] sdks[i]@ == n
}

/// An untrusted submission and everything needed to compile and load it.
#[derive(Debug, Clone)]
pub struct UntrustedRustProject {
    pub rust_code: String,
    pub runtime_memory_options: MemoryOptions,
    pub runtime_timeout_ms: Option<u64>,
    pub target: WasmCompileTarget,
    /// host-exposed types: name and literal definition text
    pub exported_host_types: Vec<(String, String)>,
    /// names of types the submission already imports, registered only for
    /// marshaling-boundary treatment
    pub sdk_types: Vec<String>,
}

impl UntrustedRustProject {
    pub fn new(rust_code: &str) -> (r: Self)
        ensures
            r.rust_code@ == rust_code@,
            r.runtime_memory_options.max_pages is None,
            r.runtime_timeout_ms is None,
            r.target == WasmCompileTarget::Lightweight,
            r.exported_host_types@ =~= Seq::<(String, String)>::empty(),
            r.sdk_types@ =~= Seq::<String>::empty(),
    {
        UntrustedRustProject {
            rust_code: String::from_str(rust_code),
            runtime_memory_options: MemoryOptions::default(),
            runtime_timeout_ms: None,
            target: WasmCompileTarget::default(),
            exported_host_types: Vec::new(),
            sdk_types: Vec::new(),
        }
    }

    /// Sets the memory budget in bytes; it is converted to a whole number
    /// of pages, rounding up, using the page size this machine reports.
    pub fn with_max_memory_bytes(self, num_bytes: usize) -> (r: Self)
        ensures
            exists|page: nat|
                page >= 1 && r.runtime_memory_options.max_pages == Some(
                    #[trigger] sat_pages(num_bytes as nat, page),
                ),
            r.rust_code == self.rust_code,
            r.runtime_timeout_ms == self.runtime_timeout_ms,
            r.target == self.target,
            r.exported_host_types == self.exported_host_types,
            r.sdk_types == self.sdk_types,
    {
        let page_size = get_page_size();
        let num_pages = pages_from(num_bytes, page_size);
        UntrustedRustProject {
            rust_code: self.rust_code,
            runtime_memory_options: MemoryOptions { max_pages: Some(num_pages) },
            runtime_timeout_ms: self.runtime_timeout_ms,
            target: self.target,
            exported_host_types: self.exported_host_types,
            sdk_types: self.sdk_types,
        }
    }

    pub fn with_target(self, target: WasmCompileTarget) -> (r: Self)
        ensures
            r.target == target,
            r.rust_code == self.rust_code,
            r.runtime_memory_options.max_pages == self.runtime_memory_options.max_pages,
            r.runtime_timeout_ms == self.runtime_timeout_ms,
            r.exported_host_types == self.exported_host_types,
            r.sdk_types == self.sdk_types,
    {
        UntrustedRustProject {
            rust_code: self.rust_code,
            runtime_memory_options: self.runtime_memory_options,
            runtime_timeout_ms: self.runtime_timeout_ms,
            target,
            exported_host_types: self.exported_host_types,
            sdk_types: self.sdk_types,
        }
    }

    /// Registers a host-exposed type from its descriptor: the name and
    /// the literal definition text.  An earlier registration under the
    /// same name is replaced.
    pub fn with_host_type_descriptor(self, name: &str, typedef: &str) -> (r: Self)
        ensures
            r.exported_host_types@.len() >= 1,
            r.exported_host_types@.last().0@ == name@,
            r.exported_host_types@.last().1@ == typedef@,
            r.exported_host_types@.drop_last() == minus_host_name(
                self.exported_host_types@,
                name@,
            ),
            r.rust_code == self.rust_code,
            r.runtime_memory_options.max_pages == self.runtime_memory_options.max_pages,
            r.runtime_timeout_ms == self.runtime_timeout_ms,
            r.target == self.target,
            r.sdk_types == self.sdk_types,
    {
        let hosts = &self.exported_host_types;
        let n = hosts.len();
        let mut kept: Vec<(String, String)> = Vec::new();
        proof {
            reveal_with_fuel(Seq::filter, 2);
            assert(hosts@.subrange(0, 0) =~= Seq::<(String, String)>::empty());
            assert(kept@ =~= minus_host_name(hosts@.subrange(0, 0), name@));
        }
        let mut i: usize = 0;
        while i < n
            invariant
                n == hosts@.len(),
                i <= n,
                kept@ == minus_host_name(hosts@.subrange(0, i as int), name@),
            decreases n - i,
        {
            proof {
                reveal_with_fuel(Seq::filter, 2);
                assert(hosts@.subrange(0, i + 1).drop_last() =~= hosts@.subrange(0, i as int));
                assert(hosts@.subrange(0, i + 1).last() == hosts@[i as int]);
            }
            let same = eq_str(hosts[i].0.as_str(), name);
            if !same {
                let entry = (hosts[i].0.clone(), hosts[i].1.clone());
                proof {
                    assert(entry == hosts@[i as int]);
                }
                kept.push(entry);
            }
            i += 1;
        }
        proof {
            assert(hosts@.subrange(0, n as int) =~= hosts@);
        }
        let mut out = kept;
        out.push((String::from_str(name), String::from_str(typedef)));
        proof {
            assert(out@.drop_last() =~= minus_host_name(hosts@, name@));
        }
        UntrustedRustProject {
            rust_code: self.rust_code,
            runtime_memory_options: self.runtime_memory_options,
            runtime_timeout_ms: self.runtime_timeout_ms,
            target: self.target,
            exported_host_types: out,
            sdk_types: self.sdk_types,
        }
    }

    /// Registers a host-exposed type; its descriptor comes from the
    /// type's own declaration.
    pub fn with_exported_host_type<T: ExportedHostType>(self) -> (r: Self)
        ensures
            r.exported_host_types@.len() >= 1,
            r.exported_host_types@.drop_last() == minus_host_name(
                self.exported_host_types@,
                r.exported_host_types@.last().0@,
            ),
            r.rust_code == self.rust_code,
            r.runtime_memory_options.max_pages == self.runtime_memory_options.max_pages,
            r.runtime_timeout_ms == self.runtime_timeout_ms,
            r.target == self.target,
            r.sdk_types == self.sdk_types,
    {
        let name = T::typename();
        let typedef = T::typedef_as_string();
        self.with_host_type_descriptor(name, typedef)
    }

    /// Registers a type name the submission already imports, so values of
    /// it are marshaled through the JSON envelope at the call boundary.
    /// Registering a name twice keeps one entry.
    pub fn with_sdk_type(self, typename: &str) -> (r: Self)
        ensures
            has_sdk_name(self.sdk_types@, typename@) ==> r.sdk_types == self.sdk_types,
            !has_sdk_name(self.sdk_types@, typename@) ==> r.sdk_types@.len()
                == self.sdk_types@.len() + 1 && r.sdk_types@.drop_last() == self.sdk_types@
                && r.sdk_types@.last()@ == typename@,
            r.rust_code == self.rust_code,
            r.runtime_memory_options.max_pages == self.runtime_memory_options.max_pages,
            r.runtime_timeout_ms == self.runtime_timeout_ms,
            r.target == self.target,
            r.exported_host_types == self.exported_host_types,
    {
        let n = self.sdk_types.len();
        let mut i: usize = 0;
        while i < n
            invariant
                n == self.sdk_types@.len(),
                i <= n,
                forall|k: int| 0 <= k < i ==> #[trigger] self.sdk_types@[k]@ != typename@,
            decreases n - i,
        {
            if eq_str(self.sdk_types[i].as_str(), typename) {
                return self;
            }
            i += 1;
        }
        assert(!has_sdk_name(self.sdk_types@, typename@));
        let mut sdks = self.sdk_types;
        sdks.push(String::from_str(typename));
        proof {
            assert(sdks@.drop_last() =~= self.sdk_types@);
        }
        UntrustedRustProject {
            rust_code: self.rust_code,
            runtime_memory_options: self.runtime_memory_options,
            runtime_timeout_ms: self.runtime_timeout_ms,
            target: self.target,
            exported_host_types: self.exported_host_types,
            sdk_types: sdks,
        }
    }

    /// Sets the wall-clock budget for each sandboxed call.
    pub fn with_runtime_timeout_ms(self, ms: u64) -> (r: Self)
        ensures
            r.runtime_timeout_ms == Some(ms),
            r.rust_code == self.rust_code,
            r.runtime_memory_options.max_pages == self.runtime_memory_options.max_pages,
            r.target == self.target,
            r.exported_host_types == self.exported_host_types,
            r.sdk_types == self.sdk_types,
    {
        UntrustedRustProject {
            rust_code: self.rust_code,
            runtime_memory_options: self.runtime_memory_options,
            runtime_timeout_ms: Some(ms),
            target: self.target,
            exported_host_types: self.exported_host_types,
            sdk_types: self.sdk_types,
        }
    }

    /// Sets the memory budget directly in pages.
    pub fn with_runtime_memory_options(self, mem_opts: MemoryOptions) -> (r: Self)
        ensures
            r.runtime_memory_options.max_pages == mem_opts.max_pages,
            r.rust_code == self.rust_code,
            r.runtime_timeout_ms == self.runtime_timeout_ms,
            r.target == self.target,
            r.exported_host_types == self.exported_host_types,
            r.sdk_types == self.sdk_types,
    {
        UntrustedRustProject {
            rust_code: self.rust_code,
            runtime_memory_options: mem_opts,
            runtime_timeout_ms: self.runtime_timeout_ms,
            target: self.target,
            exported_host_types: self.exported_host_types,
            sdk_types: self.sdk_types,
        }
    }

    /// Plans the submission: the rewritten compilation unit with an
    /// export wrapper after every public function, under this
    /// configuration's registered boundary types.
    pub fn rewritten_source(&self) -> (r: Result<String, UntRustedError>)
        ensures
            r is Ok ==> crate::parse::items_until_at(
                augmented_source(self.rust_code@, self.exported_host_types@),
                0,
                true,
            ) is Some,
            r is Ok ==> exists|items: Seq<Item>|
                {
                    &&& #[trigger] items_text(items) == augmented_source(
                        self.rust_code@,
                        self.exported_host_types@,
                    )
                    &&& crate::model::wf_items(items)
                    &&& crate::parse::items_match(
                        items,
                        (crate::parse::items_until_at(
                            augmented_source(self.rust_code@, self.exported_host_types@),
                            0,
                            true,
                        )->0).0,
                    )
                    &&& fault_items(items) is None
                    &&& r->Ok_0@ == use_line() + plan_txt_items(
                        items,
                        Seq::empty(),
                        registry_names(self.exported_host_types@, self.sdk_types@),
                    )
                },
            r is Err && r->Err_0 is ParseError ==> crate::parse::items_until_at(
                augmented_source(self.rust_code@, self.exported_host_types@),
                0,
                true,
            ) is None,
            r is Err && !(r->Err_0 is ParseError) ==> exists|items: Seq<Item>|
                {
                    &&& #[trigger] items_text(items) == augmented_source(
                        self.rust_code@,
                        self.exported_host_types@,
                    )
                    &&& crate::model::wf_items(items)
                    &&& crate::parse::items_match(
                        items,
                        (crate::parse::items_until_at(
                            augmented_source(self.rust_code@, self.exported_host_types@),
                            0,
                            true,
                        )->0).0,
                    )
                    &&& fault_items(items) is Some
                    &&& crate::plan::fault_to_error(fault_items(items)->0, r->Err_0)
                },
            r is Err ==> r->Err_0 is ParseError || r->Err_0 is UnsupportedParamName
                || r->Err_0 is UnsupportedFnArg,
    {
        plan_rewritten_source(self.rust_code.as_str(), &self.exported_host_types, &self.sdk_types)
    }

    pub fn target(&self) -> (r: WasmCompileTarget)
        ensures
            r == self.target,
    {
        self.target
    }

    pub fn runtime_timeout_ms(&self) -> (r: Option<u64>)
        ensures
            r == self.runtime_timeout_ms,
    {
        self.runtime_timeout_ms
    }

    pub fn max_pages(&self) -> (r: Option<u32>)
        ensures
            r == self.runtime_memory_options.max_pages,
    {
        self.runtime_memory_options.max_pages
    }
}

/// Compares two string slices by their characters.
fn eq_str(a: &str, b: &str) -> (r: bool)
    ensures
        r == (a@ == b@),
{
    let va = crate::text::str_to_chars(a);
    let vb = crate::text::str_to_chars(b);
    let r = crate::plan::eq_chars(&va, &vb);
    r
}

} // verus!
