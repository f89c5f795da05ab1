//! The decisions of the runtime dispatcher: which backends a
//! `#[runtime_dispatch(...)]` list names, which of them each architecture
//! tries, the target-feature frames built for each, and the names of the
//! dispatcher, its helpers and its adapter type.

use vstd::prelude::*;

verus! {

/// A backend a dispatcher can select.
#[derive(Debug, Clone, Copy, PartialEq, Eq, Structural)]
pub enum DispatchTarget {
    Avx512f,
    Avx2,
    Neon,
    Scalar,
}

pub assume_specification[ <str as PartialEq>::eq ](a: &str, b: &str) -> (r: bool)
    ensures
        r == (a@ == b@),
;

pub assume_specification[ String::push ](s: &mut String, ch: char)
    ensures
        final(s)@ == old(s)@.push(ch),
;

/// The characters `char::to_uppercase` yields for `c`.
pub uninterp spec fn uppercase_of(c: char) -> Seq<char>;

/// The upper-case form of `c`, from `char::to_uppercase`.
#[verifier::external_body]
fn uppercase(c: char) -> (r: String)
    ensures
        r@ == uppercase_of(c),
{
    c.to_uppercase().collect()
}

impl DispatchTarget {
    /// The target a dispatch list names, if any.
    pub fn from_name(name: &str) -> (r: Option<DispatchTarget>)
        ensures
            r == (if name@ == "avx512f"@ {
                Some(DispatchTarget::Avx512f)
            } else if name@ == "avx2"@ {
                Some(DispatchTarget::Avx2)
            } else if name@ == "neon"@ {
                Some(DispatchTarget::Neon)
            } else if name@ == "scalar"@ {
                Some(DispatchTarget::Scalar)
            } else {
                None
            }),
    {
        if <str as PartialEq>::eq(name, "avx512f") {
            Some(DispatchTarget::Avx512f)
        } else if <str as PartialEq>::eq(name, "avx2") {
            Some(DispatchTarget::Avx2)
        } else if <str as PartialEq>::eq(name, "neon") {
            Some(DispatchTarget::Neon)
        } else if <str as PartialEq>::eq(name, "scalar") {
            Some(DispatchTarget::Scalar)
        } else {
            None
        }
    }

    /// The target features the backend's frame enables; none for scalar.
    pub fn feature_str(&self) -> (r: Option<&'static str>)
        ensures
            match *self {
                DispatchTarget::Avx512f => r matches Some(s) && s@ == "avx512f"@,
                DispatchTarget::Avx2 => r matches Some(s) && s@ == "avx2,fma"@,
                DispatchTarget::Neon => r matches Some(s) && s@ == "neon"@,
                DispatchTarget::Scalar => r is None,
            },
    {
        match self {
            DispatchTarget::Avx512f => Some("avx512f"),
            DispatchTarget::Avx2 => Some("avx2,fma"),
            DispatchTarget::Neon => Some("neon"),
            DispatchTarget::Scalar => None,
        }
    }
}

/// `value` in upper camel case: the underscores dropped and the first
/// character of each part between them upper-cased. `at_start` says whether
/// the next character begins a part.
pub open spec fn camel_case(value: Seq<char>, at_start: bool) -> Seq<char>
    decreases value.len(),
{
    if value.len() == 0 {
        Seq::empty()
    } else if value[0] == '_' {
        camel_case(value.drop_first(), true)
    } else if at_start {
        uppercase_of(value[0]) + camel_case(value.drop_first(), false)
    } else {
        seq![value[0]] + camel_case(value.drop_first(), false)
    }
}

proof fn lemma_camel_case_step(value: Seq<char>, i: int, at_start: bool)
    requires
        0 <= i < value.len(),
    ensures
        camel_case(value.subrange(i, value.len() as int), at_start) == if value[i] == '_' {
            camel_case(value.subrange(i + 1, value.len() as int), true)
        } else if at_start {
            uppercase_of(value[i]) + camel_case(value.subrange(i + 1, value.len() as int), false)
        } else {
            seq![value[i]] + camel_case(value.subrange(i + 1, value.len() as int), false)
        },
{
    let rest = value.subrange(i, value.len() as int);
    assert(rest.drop_first() =~= value.subrange(i + 1, value.len() as int));
    assert(rest[0] == value[i]);
}

/// The type name derived from a kernel name: `dot_avx2_fma` becomes
/// `DotAvx2Fma`.
pub fn upper_camel_case(value: &str) -> (r: String)
    ensures
        r@ == camel_case(value@, true),
{
    let len = value.unicode_len();
    let mut out = String::new();
    let mut at_start = true;
    let mut i: usize = 0;
    proof {
        assert(value@.subrange(0, len as int) =~= value@);
    }
    while i < len
        invariant
            i <= len,
            len == value@.len(),
            out@ + camel_case(value@.subrange(i as int, len as int), at_start) == camel_case(value@, true),
        decreases len - i,
    {
        proof {
            lemma_camel_case_step(value@, i as int, at_start);
        }
        let c = value.get_char(i);
        if c == '_' {
            at_start = true;
        } else if at_start {
            let upper = uppercase(c);
            proof {
                assert(out@ + uppercase_of(c) + camel_case(value@.subrange(i + 1, len as int), false)
                    =~= out@ + (uppercase_of(c) + camel_case(value@.subrange(i + 1, len as int), false)));
            }
            out.append(upper.as_str());
            at_start = false;
        } else {
            proof {
                assert(out@.push(c) + camel_case(value@.subrange(i + 1, len as int), false)
                    =~= out@ + (seq![c] + camel_case(value@.subrange(i + 1, len as int), false)));
            }
            out.push(c);
        }
        i += 1;
    }
    proof {
        assert(value@.subrange(len as int, len as int) =~= Seq::<char>::empty());
    }
    out
}

/// Whether `s` ends with `suffix`.
pub open spec fn ends_with(s: Seq<char>, suffix: Seq<char>) -> bool {
    s.len() >= suffix.len() && s.subrange(s.len() - suffix.len(), s.len() as int) == suffix
}

/// Whether `s` ends with `suffix`.
fn str_ends_with(s: &str, suffix: &str) -> (r: bool)
    ensures
        r == ends_with(s@, suffix@),
{
    let n = s.unicode_len();
    let m = suffix.unicode_len();
    if m > n {
        return false;
    }
    let mut i: usize = 0;
    while i < m
        invariant
            i <= m,
            m <= n,
            n == s@.len(),
            m == suffix@.len(),
            forall|k: int| 0 <= k < i ==> s@[n - m + k] == suffix@[k],
        decreases m - i,
    {
        if s.get_char(n - m + i) != suffix.get_char(i) {
            proof {
                assert(s@.subrange(n - m, n as int)[i as int] != suffix@[i as int]);
            }
            return false;
        }
        i += 1;
    }
    proof {
        assert(s@.subrange(n - m, n as int) =~= suffix@);
    }
    true
}

/// The name of the dispatcher for a kernel: the kernel's name without a
/// trailing `_kernel`, or else without a trailing `_impl`.
pub open spec fn dispatch_name_spec(kernel: Seq<char>) -> Seq<char> {
    if ends_with(kernel, "_kernel"@) {
        kernel.subrange(0, kernel.len() - "_kernel"@.len())
    } else if ends_with(kernel, "_impl"@) {
        kernel.subrange(0, kernel.len() - "_impl"@.len())
    } else {
        kernel
    }
}

/// The name of the dispatcher generated for the kernel `kernel`.
pub fn dispatch_name(kernel: &str) -> (r: String)
    ensures
        r@ == dispatch_name_spec(kernel@),
{
    let n = kernel.unicode_len();
    if str_ends_with(kernel, "_kernel") {
        kernel.substring_char(0, n - "_kernel".unicode_len()).to_owned()
    } else if str_ends_with(kernel, "_impl") {
        kernel.substring_char(0, n - "_impl".unicode_len()).to_owned()
    } else {
        kernel.to_owned()
    }
}

/// The name of the AVX2 frame adapter type of the dispatcher `dispatch`.
pub open spec fn adapter_name_spec(dispatch: Seq<char>) -> Seq<char> {
    "__Hermes"@ + camel_case(dispatch, true) + "Avx2Frame"@
}

/// The name of the type that carries a kernel over a scalar type into the
/// AVX2 frames of the dispatcher `dispatch`.
pub fn avx2_adapter_name(dispatch: &str) -> (r: String)
    ensures
        r@ == adapter_name_spec(dispatch@),
{
    let mut name = "__Hermes".to_owned();
    let camel = upper_camel_case(dispatch);
    name.append(camel.as_str());
    name.append("Avx2Frame");
    name
}

/// The architecture family a dispatcher is compiled for.
#[derive(Debug, Clone, Copy, PartialEq, Eq, Structural)]
pub enum ArchFamily {
    X86,
    Aarch64,
    Other,
}

/// Whether the backend `t` can run on the family `f`: the x86 backends and
/// scalar on x86, NEON and scalar on AArch64.
pub open spec fn runs_on(t: DispatchTarget, f: ArchFamily) -> bool {
    match f {
        ArchFamily::X86 => t == DispatchTarget::Avx512f || t == DispatchTarget::Avx2 || t == DispatchTarget::Scalar,
        ArchFamily::Aarch64 => t == DispatchTarget::Neon || t == DispatchTarget::Scalar,
        ArchFamily::Other => t == DispatchTarget::Scalar,
    }
}

/// The backends, in the order listed, that the dispatcher for `family`
/// tries; on other families only the scalar fallback, listed or not.
pub open spec fn targets_for_spec(targets: Seq<DispatchTarget>, family: ArchFamily) -> Seq<DispatchTarget> {
    if family == ArchFamily::Other {
        seq![DispatchTarget::Scalar]
    } else {
        targets.filter(|t: DispatchTarget| runs_on(t, family))
    }
}

/// The listed backends that the dispatcher for `family` tries.
pub fn targets_for(targets: &Vec<DispatchTarget>, family: ArchFamily) -> (r: Vec<DispatchTarget>)
    ensures
        r@ == targets_for_spec(targets@, family),
{
    if family == ArchFamily::Other {
        return vec![DispatchTarget::Scalar];
    }
    let mut out: Vec<DispatchTarget> = Vec::new();
    let mut i: usize = 0;
    proof {
        reveal(Seq::filter);
        assert(targets@.subrange(0, 0) =~= Seq::<DispatchTarget>::empty());
    }
    while i < targets.len()
        invariant
            i <= targets@.len(),
            family != ArchFamily::Other,
            out@ == targets@.subrange(0, i as int).filter(|t: DispatchTarget| runs_on(t, family)),
        decreases targets@.len() - i,
    {
        let t = targets[i];
        let keep = match family {
            ArchFamily::X86 => match t {
                DispatchTarget::Avx512f | DispatchTarget::Avx2 | DispatchTarget::Scalar => true,
                DispatchTarget::Neon => false,
            },
            _ => match t {
                DispatchTarget::Neon | DispatchTarget::Scalar => true,
                _ => false,
            },
        };
        proof {
            reveal(Seq::filter);
            assert(targets@.subrange(0, i + 1).drop_last() =~= targets@.subrange(0, i as int));
            assert(keep == runs_on(t, family));
        }
        if keep {
            out.push(t);
        }
        i += 1;
    }
    proof {
        assert(targets@.subrange(0, targets@.len() as int) =~= targets@);
    }
    out
}

/// Whether one of `targets` is NEON, whose arm returns unconditionally, so
/// that the scalar fallback after the arms cannot be reached there.
pub fn returns_before_fallback(targets: &Vec<DispatchTarget>) -> (r: bool)
    ensures
        r == exists|i: int| 0 <= i < targets@.len() && targets@[i] == DispatchTarget::Neon,
{
    let mut i: usize = 0;
    while i < targets.len()
        invariant
            i <= targets@.len(),
            forall|k: int| 0 <= k < i ==> targets@[k] != DispatchTarget::Neon,
        decreases targets@.len() - i,
    {
        if targets[i] == DispatchTarget::Neon {
            return true;
        }
        i += 1;
    }
    false
}

/// A target-feature frame of a dispatcher: the features it enables, comma
/// separated, and, for the AVX2 frames of a kernel over a scalar type,
/// whether it is the one that also needs F16C.
#[derive(Debug, Clone, Copy)]
pub struct FeatureFrame {
    pub features: &'static str,
    pub requires_f16c: Option<bool>,
}

/// The frames built for `target`, as (features, F16C requirement): none for
/// scalar; for AVX2 over a scalar type one frame with F16C and one without;
/// otherwise one frame with the target's features.
pub open spec fn frames_spec(target: DispatchTarget, has_scalar_type: bool) -> Seq<(Seq<char>, Option<bool>)> {
    match target {
        DispatchTarget::Scalar => seq![],
        DispatchTarget::Avx2 => if has_scalar_type {
            seq![("avx2,fma,f16c"@, Some(true)), ("avx2,fma"@, Some(false))]
        } else {
            seq![("avx2,fma"@, None)]
        },
        DispatchTarget::Avx512f => seq![("avx512f"@, None)],
        DispatchTarget::Neon => seq![("neon"@, None)],
    }
}

/// The target-feature frames the dispatcher builds for `target`.
pub fn feature_frames(target: DispatchTarget, has_scalar_type: bool) -> (r: Vec<FeatureFrame>)
    ensures
        r@.len() == frames_spec(target, has_scalar_type).len(),
        forall|i: int| 0 <= i < r@.len() ==>
            (#[trigger] r@[i]).features@ == frames_spec(target, has_scalar_type)[i].0
            && r@[i].requires_f16c == frames_spec(target, has_scalar_type)[i].1,
{
    if target == DispatchTarget::Avx2 && has_scalar_type {
        vec![
            FeatureFrame { features: "avx2,fma,f16c", requires_f16c: Some(true) },
            FeatureFrame { features: "avx2,fma", requires_f16c: Some(false) },
        ]
    } else {
        match target.feature_str() {
            Some(features) => vec![FeatureFrame { features, requires_f16c: None }],
            None => Vec::new(),
        }
    }
}

/// `c` in a helper name: separators of a feature list become underscores.
pub open spec fn ident_char(c: char) -> char {
    if c == ',' || c == '-' { '_' } else { c }
}

/// The name of the helper that runs a dispatcher's kernel in one frame:
/// the dispatcher's name, an underscore, and the frame's features with
/// every `,` and `-` made an underscore.
pub open spec fn helper_name_spec(dispatch: Seq<char>, features: Seq<char>) -> Seq<char> {
    dispatch + seq!['_'] + features.map_values(|c: char| ident_char(c))
}

/// The name of the helper that runs the dispatcher `dispatch` in the frame
/// enabling `features`.
pub fn helper_name(dispatch: &str, features: &str) -> (r: String)
    ensures
        r@ == helper_name_spec(dispatch@, features@),
{
    let mut name = dispatch.to_owned();
    name.push('_');
    let n = features.unicode_len();
    let mut i: usize = 0;
    while i < n
        invariant
            i <= n,
            n == features@.len(),
            name@ == dispatch@ + seq!['_'] + features@.subrange(0, i as int).map_values(|c: char| ident_char(c)),
        decreases n - i,
    {
        let c = features.get_char(i);
        let d = if c == ',' || c == '-' { '_' } else { c };
        proof {
            assert(features@.subrange(0, i + 1).map_values(|c: char| ident_char(c))
                =~= features@.subrange(0, i as int).map_values(|c: char| ident_char(c)).push(d));
        }
        name.push(d);
        i += 1;
    }
    proof {
        assert(features@.subrange(0, n as int) =~= features@);
    }
    name
}

/// `pieces` joined, with a comma between each two.
pub open spec fn joined(pieces: Seq<Seq<char>>) -> Seq<char>
    decreases pieces.len(),
{
    if pieces.len() == 0 {
        Seq::empty()
    } else if pieces.len() == 1 {
        pieces[0]
    } else {
        joined(pieces.drop_last()) + seq![','] + pieces.last()
    }
}

proof fn lemma_joined_extend(done: Seq<Seq<char>>, cur: Seq<char>, c: char)
    ensures
        joined(done.push(cur.push(c))) == joined(done.push(cur)).push(c),
{
    assert(done.push(cur.push(c)).drop_last() =~= done);
    assert(done.push(cur).drop_last() =~= done);
    if done.len() > 0 {
        assert(joined(done) + seq![','] + cur.push(c) =~= (joined(done) + seq![','] + cur).push(c));
    }
}

proof fn lemma_joined_close(done: Seq<Seq<char>>, cur: Seq<char>)
    ensures
        joined(done.push(cur).push(Seq::empty())) == joined(done.push(cur)).push(','),
{
    assert(done.push(cur).push(Seq::<char>::empty()).drop_last() =~= done.push(cur));
    assert(joined(done.push(cur)) + seq![','] + Seq::<char>::empty() =~= joined(done.push(cur)).push(','));
}

/// The features of a comma-separated list, in order: the pieces between the
/// commas, which joined with commas give the list back.
pub fn split_features(list: &str) -> (r: Vec<String>)
    ensures
        joined(r@.map_values(|p: String| p@)) == list@,
        r@.len() >= 1,
        forall|i: int| 0 <= i < r@.len() ==> !(#[trigger] r@[i]@).contains(','),
{
    let n = list.unicode_len();
    let mut done: Vec<String> = Vec::new();
    let mut cur = String::new();
    let mut i: usize = 0;
    proof {
        assert(done@.map_values(|p: String| p@).push(cur@) =~= seq![Seq::<char>::empty()]);
        assert(list@.subrange(0, 0) =~= Seq::<char>::empty());
    }
    while i < n
        invariant
            i <= n,
            n == list@.len(),
            joined(done@.map_values(|p: String| p@).push(cur@)) == list@.subrange(0, i as int),
            forall|k: int| 0 <= k < done@.len() ==> !(#[trigger] done@[k]@).contains(','),
            !cur@.contains(','),
        decreases n - i,
    {
        let c = list.get_char(i);
        let ghost pieces = done@.map_values(|p: String| p@);
        proof {
            assert(list@.subrange(0, i + 1) =~= list@.subrange(0, i as int).push(c));
        }
        if c == ',' {
            proof {
                lemma_joined_close(pieces, cur@);
            }
            let piece = cur;
            done.push(piece);
            cur = String::new();
            proof {
                assert(done@.map_values(|p: String| p@) =~= pieces.push(piece@));
            }
        } else {
            proof {
                lemma_joined_extend(pieces, cur@, c);
                assert forall|x: char| cur@.push(c).contains(x) implies x != ',' by {
                    let k = choose|k: int| 0 <= k < cur@.push(c).len() && cur@.push(c)[k] == x;
                    if k < cur@.len() {
                        assert(cur@.contains(cur@[k]));
                    }
                }
            }
            cur.push(c);
        }
        i += 1;
    }
    let ghost pieces = done@.map_values(|p: String| p@);
    let last = cur;
    done.push(last);
    proof {
        assert(done@.map_values(|p: String| p@) =~= pieces.push(last@));
        assert(list@.subrange(0, n as int) =~= list@);
    }
    done
}

/// The kernel traits whose first type argument names the scalar type a
/// kernel works on.
pub open spec fn is_kernel_facet_spec(name: Seq<char>) -> bool {
    name == "SimdKernel"@ || name == "SimdStorage"@ || name == "SimdLoadStore"@
        || name == "SimdArith"@ || name == "SimdBitwise"@ || name == "SimdCompare"@
        || name == "SimdReduce"@ || name == "SimdMask"@ || name == "SimdGather"@
        || name == "SimdPermute"@
}

/// The ten facet traits of a kernel over a scalar type, each named by the
/// scalar type in its first type argument: `A: SimdArith<T>` and the like.
pub open spec fn kernel_facet_names() -> Seq<Seq<char>> {
    seq![
        "SimdKernel"@, "SimdStorage"@, "SimdLoadStore"@, "SimdArith"@, "SimdBitwise"@,
        "SimdCompare"@, "SimdReduce"@, "SimdMask"@, "SimdGather"@, "SimdPermute"@,
    ]
}

/// Exactly the ten facet names are recognised: every one of them, and no
/// other name.
pub proof fn lemma_kernel_facets(name: Seq<char>)
    ensures
        is_kernel_facet_spec(name) <==> kernel_facet_names().contains(name),
        is_kernel_facet_spec("SimdKernel"@),
        is_kernel_facet_spec("SimdStorage"@),
        is_kernel_facet_spec("SimdLoadStore"@),
        is_kernel_facet_spec("SimdArith"@),
        is_kernel_facet_spec("SimdBitwise"@),
        is_kernel_facet_spec("SimdCompare"@),
        is_kernel_facet_spec("SimdReduce"@),
        is_kernel_facet_spec("SimdMask"@),
        is_kernel_facet_spec("SimdGather"@),
        is_kernel_facet_spec("SimdPermute"@),
{
    let names = kernel_facet_names();
    if is_kernel_facet_spec(name) {
        if name == "SimdKernel"@ { assert(names[0] == name); }
        else if name == "SimdStorage"@ { assert(names[1] == name); }
        else if name == "SimdLoadStore"@ { assert(names[2] == name); }
        else if name == "SimdArith"@ { assert(names[3] == name); }
        else if name == "SimdBitwise"@ { assert(names[4] == name); }
        else if name == "SimdCompare"@ { assert(names[5] == name); }
        else if name == "SimdReduce"@ { assert(names[6] == name); }
        else if name == "SimdMask"@ { assert(names[7] == name); }
        else if name == "SimdGather"@ { assert(names[8] == name); }
        else { assert(names[9] == name); }
    }
    if names.contains(name) {
        let i = choose|i: int| 0 <= i < names.len() && names[i] == name;
        assert(0 <= i < 10);
    }
}

/// Whether a bound on the architecture parameter through the trait `name`
/// carries the kernel's scalar type.
pub fn is_kernel_facet(name: &str) -> (r: bool)
    ensures
        r == is_kernel_facet_spec(name@),
        r <==> kernel_facet_names().contains(name@),
{
    proof {
        lemma_kernel_facets(name@);
    }
    <str as PartialEq>::eq(name, "SimdKernel") || <str as PartialEq>::eq(name, "SimdStorage")
        || <str as PartialEq>::eq(name, "SimdLoadStore") || <str as PartialEq>::eq(name, "SimdArith")
        || <str as PartialEq>::eq(name, "SimdBitwise") || <str as PartialEq>::eq(name, "SimdCompare")
        || <str as PartialEq>::eq(name, "SimdReduce") || <str as PartialEq>::eq(name, "SimdMask")
        || <str as PartialEq>::eq(name, "SimdGather") || <str as PartialEq>::eq(name, "SimdPermute")
}

/// Whether the lifetimes named in a kernel's inputs are one and the same, so
/// that an elided lifetime in its output stands for that one: there is at
/// least one, and every name equals the first.
pub fn single_input_lifetime(names: &Vec<String>) -> (r: bool)
    ensures
        r == (names@.len() > 0 && forall|i: int| 0 <= i < names@.len() ==> #[trigger] names@[i]@ == names@[0]@),
{
    if names.len() == 0 {
        return false;
    }
    let mut i: usize = 1;
    while i < names.len()
        invariant
            1 <= i <= names@.len(),
            forall|k: int| 0 <= k < i ==> #[trigger] names@[k]@ == names@[0]@,
        decreases names@.len() - i,
    {
        if names[i] != names[0] {
            return false;
        }
        i += 1;
    }
    true
}

} // verus!
