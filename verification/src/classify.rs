use vstd::prelude::*;

use crate::session::WindowAttrs;

verus! {

/// The interned window-type atoms, as the windowing server names them.
#[derive(Debug, Clone, Copy, PartialEq, Eq, Structural)]
pub struct TypeAtoms {
    pub normal: u32,
    pub desktop: u32,
    pub dock: u32,
    pub dialog: u32,
    pub toolbar: u32,
    pub menu: u32,
    pub utility: u32,
    pub splash: u32,
}

/// Relies on `String::from_utf8_lossy`: the decoded text is a function of
/// the bytes alone.
pub uninterp spec fn lossy_utf8(b: Seq<u8>) -> Seq<char>;

/// Relies on `String::from_utf8_lossy`: decodes property bytes into text,
/// replacing invalid sequences; empty input decodes to empty text.
#[verifier::external_body]
pub(crate) fn bytes_to_string_lossy(b: &Vec<u8>) -> (r: String)
    ensures
        r@ == lossy_utf8(b@),
        b@.len() == 0 ==> r@.len() == 0,
{
    String::from_utf8_lossy(b).to_string()
}

// 32-BIT WORDS FROM PROPERTY BYTES

/// The 32-bit value of four bytes, little-endian (least-significant byte
/// first): the word order of the protocol connection on the machines this
/// crate targets.
pub open spec fn word_at(b: Seq<u8>, i: int) -> int {
    b[i] + 256 * (b[i + 1] + 256 * (b[i + 2] + 256 * b[i + 3]))
}

/// A 32-bit cardinal property: the first word of the value, which must
/// hold at least four bytes.
pub open spec fn spec_cardinal_of(v: Option<Seq<u8>>) -> Option<int> {
    match v {
        Some(b) => if b.len() >= 4 {
            Some(word_at(b, 0))
        } else {
            None
        },
        None => None,
    }
}

/// Reads a 32-bit cardinal (or atom) property value: the first word, when
/// the reply holds one.
pub fn cardinal_of(value: &Option<Vec<u8>>) -> (r: Option<u32>)
    ensures
        match r {
            Some(w) => spec_cardinal_of(opt_bytes_view(*value)) == Some(w as int),
            None => spec_cardinal_of(opt_bytes_view(*value)) is None,
        },
{
    match value {
        Some(b) => {
            if b.len() >= 4 {
                let w = b[0] as u32 + b[1] as u32 * 256 + b[2] as u32 * 65536 + b[3] as u32
                    * 16777216;
                Some(w)
            } else {
                None
            }
        },
        None => None,
    }
}

pub open spec fn opt_bytes_view(o: Option<Vec<u8>>) -> Option<Seq<u8>> {
    match o {
        Some(v) => Some(v@),
        None => None,
    }
}

/// The window handles in a client-list property: one per full word,
/// trailing bytes dropped.
pub open spec fn spec_window_list(b: Seq<u8>) -> Seq<u32>
    decreases b.len(),
{
    if b.len() < 4 {
        Seq::empty()
    } else {
        seq![word_at(b, 0) as u32] + spec_window_list(b.skip(4))
    }
}

/// Decodes a client-list property into window handles.
pub fn decode_window_list(bytes: &Vec<u8>) -> (r: Vec<u32>)
    ensures
        r@ == spec_window_list(bytes@),
{
    let n = bytes.len();
    let mut out: Vec<u32> = Vec::new();
    let mut i: usize = 0;
    proof {
        assert(bytes@.skip(0) =~= bytes@);
        assert(out@ + spec_window_list(bytes@) =~= spec_window_list(bytes@));
    }
    while i <= n && n - i >= 4
        invariant
            n == bytes@.len(),
            i <= n,
            spec_window_list(bytes@) == out@ + spec_window_list(bytes@.skip(i as int)),
        decreases n - i,
    {
        let w = bytes[i] as u32 + bytes[i + 1] as u32 * 256 + bytes[i + 2] as u32 * 65536
            + bytes[i + 3] as u32 * 16777216;
        proof {
            let t = bytes@.skip(i as int);
            assert(t[0] == bytes@[i as int]);
            assert(t[1] == bytes@[i as int + 1]);
            assert(t[2] == bytes@[i as int + 2]);
            assert(t[3] == bytes@[i as int + 3]);
            assert(w as int == word_at(t, 0));
            assert(t.skip(4) =~= bytes@.skip(i as int + 4));
            assert(out@ + (seq![w] + spec_window_list(bytes@.skip(i as int + 4))) =~= out@.push(w)
                + spec_window_list(bytes@.skip(i as int + 4)));
        }
        out.push(w);
        i = i + 4;
    }
    proof {
        assert(spec_window_list(bytes@.skip(i as int)) =~= Seq::<u32>::empty());
        assert(out@ + Seq::<u32>::empty() =~= out@);
    }
    out
}

// THE FIVE ATTRIBUTES

/// Index of the first zero byte, or the length when there is none.
pub open spec fn first_zero(b: Seq<u8>) -> int
    decreases b.len(),
{
    if b.len() == 0 {
        0
    } else if b[0] == 0 {
        0
    } else {
        1 + first_zero(b.drop_first())
    }
}

/// The class field of a structured class/instance property: the bytes
/// after the first zero separator, less a trailing zero terminator.
pub open spec fn spec_wm_class_field(b: Seq<u8>) -> Seq<u8> {
    let start = first_zero(b) + 1;
    if start >= b.len() {
        Seq::empty()
    } else {
        let end = if b.last() == 0 {
            b.len() - 1
        } else {
            b.len() as int
        };
        b.subrange(start, end)
    }
}

proof fn lemma_first_zero_at(b: Seq<u8>, i: int)
    requires
        0 <= i < b.len(),
        b[i] == 0,
        forall|j: int| 0 <= j < i ==> (#[trigger] b[j]) != 0,
    ensures
        first_zero(b) == i,
    decreases b.len(),
{
    if i > 0 {
        lemma_first_zero_at(b.drop_first(), i - 1);
    }
}

proof fn lemma_first_zero_absent(b: Seq<u8>)
    requires
        forall|j: int| 0 <= j < b.len() ==> (#[trigger] b[j]) != 0,
    ensures
        first_zero(b) == b.len(),
    decreases b.len(),
{
    if b.len() > 0 {
        lemma_first_zero_absent(b.drop_first());
    }
}

/// Extracts the class field's bytes from a class/instance property value.
pub fn wm_class_field(value: &Vec<u8>) -> (r: Vec<u8>)
    ensures
        r@ == spec_wm_class_field(value@),
{
    let n = value.len();
    let mut off: usize = 0;
    let mut found = false;
    let mut j: usize = 0;
    while j < n
        invariant
            n == value@.len(),
            j <= n,
            !found ==> forall|jj: int| 0 <= jj < j ==> (#[trigger] value@[jj]) != 0,
            found ==> off < j && value@[off as int] == 0 && forall|jj: int|
                0 <= jj < off ==> (#[trigger] value@[jj]) != 0,
        decreases n - j,
    {
        if !found && value[j] == 0 {
            found = true;
            off = j;
        }
        j = j + 1;
    }
    proof {
        if found {
            lemma_first_zero_at(value@, off as int);
        } else {
            lemma_first_zero_absent(value@);
        }
    }
    let start = if found {
        off + 1
    } else {
        n
    };
    if !found || start >= n {
        proof {
            assert(spec_wm_class_field(value@) =~= Seq::<u8>::empty());
        }
        return Vec::new();
    }
    let end = if value[n - 1] == 0 {
        n - 1
    } else {
        n
    };
    let mut out: Vec<u8> = Vec::new();
    let mut k: usize = start;
    while k < end
        invariant
            n == value@.len(),
            start <= k <= end <= n,
            out@ == value@.subrange(start as int, k as int),
        decreases end - k,
    {
        out.push(value[k]);
        proof {
            assert(value@.subrange(start as int, k as int).push(value@[k as int])
                =~= value@.subrange(start as int, k as int + 1));
        }
        k = k + 1;
    }
    proof {
        assert(out@ =~= spec_wm_class_field(value@));
    }
    out
}

/// The class attribute: the class field of the property, decoded, or empty
/// when the property could not be read.
pub open spec fn spec_class_of(v: Option<Seq<u8>>) -> Seq<char> {
    match v {
        Some(b) => lossy_utf8(spec_wm_class_field(b)),
        None => Seq::empty(),
    }
}

pub fn class_of(value: &Option<Vec<u8>>) -> (r: String)
    ensures
        r@ == spec_class_of(opt_bytes_view(*value)),
{
    match value {
        Some(b) => {
            let field = wm_class_field(b);
            bytes_to_string_lossy(&field)
        },
        None => String::new(),
    }
}

/// A textual property: decoded when present and non-empty.
pub open spec fn spec_string_prop(v: Option<Seq<u8>>) -> Option<Seq<char>> {
    match v {
        Some(b) => if b.len() == 0 {
            None
        } else {
            Some(lossy_utf8(b))
        },
        None => None,
    }
}

pub fn string_property_of(value: &Option<Vec<u8>>) -> (r: Option<String>)
    ensures
        match r {
            Some(s) => spec_string_prop(opt_bytes_view(*value)) == Some(s@),
            None => spec_string_prop(opt_bytes_view(*value)) is None,
        },
{
    match value {
        Some(b) => {
            if b.len() == 0 {
                None
            } else {
                Some(bytes_to_string_lossy(b))
            }
        },
        None => None,
    }
}

/// The title attribute: the modern UTF-8 title property wins; the legacy
/// title property is the fallback; otherwise empty.
pub open spec fn spec_title_of(net: Option<Seq<u8>>, legacy: Option<Seq<u8>>) -> Seq<char> {
    match spec_string_prop(net) {
        Some(t) => t,
        None => match spec_string_prop(legacy) {
            Some(t) => t,
            None => Seq::empty(),
        },
    }
}

pub fn title_of(net: &Option<Vec<u8>>, legacy: &Option<Vec<u8>>) -> (r: String)
    ensures
        r@ == spec_title_of(opt_bytes_view(*net), opt_bytes_view(*legacy)),
{
    match string_property_of(net) {
        Some(t) => t,
        None => match string_property_of(legacy) {
            Some(t) => t,
            None => String::new(),
        },
    }
}

/// The role attribute: the role property, or empty.
pub open spec fn spec_role_of(v: Option<Seq<u8>>) -> Seq<char> {
    match spec_string_prop(v) {
        Some(t) => t,
        None => Seq::empty(),
    }
}

pub fn role_of(value: &Option<Vec<u8>>) -> (r: String)
    ensures
        r@ == spec_role_of(opt_bytes_view(*value)),
{
    match string_property_of(value) {
        Some(t) => t,
        None => String::new(),
    }
}

/// The fixed vocabulary name of a window-type atom: a missing property
/// defaults to `normal`; an atom outside the vocabulary is `unknown`.
pub open spec fn spec_window_type_name(t: Option<u32>, atoms: TypeAtoms) -> Seq<char> {
    match t {
        None => "normal"@,
        Some(a) => if a == atoms.normal {
            "normal"@
        } else if a == atoms.dialog {
            "dialog"@
        } else if a == atoms.dock {
            "dock"@
        } else if a == atoms.toolbar {
            "toolbar"@
        } else if a == atoms.menu {
            "menu"@
        } else if a == atoms.utility {
            "utility"@
        } else if a == atoms.splash {
            "splash"@
        } else if a == atoms.desktop {
            "desktop"@
        } else {
            "unknown"@
        },
    }
}

pub fn window_type_name(t: Option<u32>, atoms: &TypeAtoms) -> (r: String)
    ensures
        r@ == spec_window_type_name(t, *atoms),
{
    match t {
        None => String::from_str("normal"),
        Some(a) => {
            if a == atoms.normal {
                String::from_str("normal")
            } else if a == atoms.dialog {
                String::from_str("dialog")
            } else if a == atoms.dock {
                String::from_str("dock")
            } else if a == atoms.toolbar {
                String::from_str("toolbar")
            } else if a == atoms.menu {
                String::from_str("menu")
            } else if a == atoms.utility {
                String::from_str("utility")
            } else if a == atoms.splash {
                String::from_str("splash")
            } else if a == atoms.desktop {
                String::from_str("desktop")
            } else {
                String::from_str("unknown")
            }
        },
    }
}

/// Assembles the five matchable attributes of a window from its raw
/// property values; every attribute is best effort and absence decodes to
/// an empty string or a default, never a failure.
pub fn window_attrs(
    class_prop: &Option<Vec<u8>>,
    net_title_prop: &Option<Vec<u8>>,
    legacy_title_prop: &Option<Vec<u8>>,
    role_prop: &Option<Vec<u8>>,
    type_atom: Option<u32>,
    type_atoms: &TypeAtoms,
    process: String,
) -> (r: WindowAttrs)
    ensures
        r.class@ == spec_class_of(opt_bytes_view(*class_prop)),
        r.title@ == spec_title_of(opt_bytes_view(*net_title_prop), opt_bytes_view(*legacy_title_prop)),
        r.role@ == spec_role_of(opt_bytes_view(*role_prop)),
        r.process == process,
        r.window_type@ == spec_window_type_name(type_atom, *type_atoms),
{
    WindowAttrs {
        class: class_of(class_prop),
        title: title_of(net_title_prop, legacy_title_prop),
        role: role_of(role_prop),
        process,
        window_type: window_type_name(type_atom, type_atoms),
    }
}

} // verus!
