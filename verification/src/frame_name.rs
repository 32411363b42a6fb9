//! The frame-name renderer: decoding of managed class signatures, assembly
//! of `class.method(signature)` display names, native-symbol demangling and
//! thread-frame naming.

use vstd::prelude::*;
use std::collections::HashMap;
use crate::bytes::append_bytes;
use crate::bytes::spec_starts_with;
use crate::maps::spec_find_not;
use crate::maps::find_not_byte;
use crate::sampler::ThreadInfo;

verus! {

pub const LEFT_BRACKET: u8 = 91;

pub const RIGHT_BRACKET: u8 = 93;

pub const SLASH: u8 = 47;

pub const PERIOD: u8 = 46;

pub const SEMICOLON: u8 = 59;

pub const UPPER_L: u8 = 76;

pub const UNDERSCORE: u8 = 95;

pub const UPPER_Z: u8 = 90;

/// The display name of a primitive element type, by its signature byte;
/// an object element (`L…;`) or anything unknown gives nothing here.
pub open spec fn spec_primitive_name(b: u8) -> Option<Seq<u8>> {
    if b == 66 {  // B
        Some(seq![98u8, 121u8, 116u8, 101u8])  // byte
    } else if b == 67 {  // C
        Some(seq![99u8, 104u8, 97u8, 114u8])  // char
    } else if b == 73 {  // I
        Some(seq![105u8, 110u8, 116u8])  // int
    } else if b == 74 {  // J
        Some(seq![108u8, 111u8, 110u8, 103u8])  // long
    } else if b == 83 {  // S
        Some(seq![115u8, 104u8, 111u8, 114u8, 116u8])  // short
    } else if b == 90 {  // Z
        Some(seq![98u8, 111u8, 111u8, 108u8, 101u8, 97u8, 110u8])  // boolean
    } else if b == 70 {  // F
        Some(seq![102u8, 108u8, 111u8, 97u8, 116u8])  // float
    } else if b == 68 {  // D
        Some(seq![100u8, 111u8, 117u8, 98u8, 108u8, 101u8])  // double
    } else {
        None
    }
}

/// `[]` repeated `n` times.
pub open spec fn spec_brackets(n: int) -> Seq<u8>
    decreases n,
{
    if n <= 0 {
        Seq::empty()
    } else {
        spec_brackets(n - 1) + seq![LEFT_BRACKET, RIGHT_BRACKET]
    }
}

/// Is the byte an ASCII decimal digit?
pub open spec fn spec_is_ascii_digit(b: u8) -> bool {
    48 <= b <= 57
}

/// Package separators turned into dots: a slash becomes a period unless a
/// digit follows it (a digit-starting inner-class fragment is left alone).
pub open spec fn spec_dot_mapped(s: Seq<u8>) -> Seq<u8> {
    Seq::new(
        s.len(),
        |i: int|
            if s[i] == SLASH && (i + 1 >= s.len() || !spec_is_ascii_digit(s[i + 1])) {
                PERIOD
            } else {
                s[i]
            },
    )
}

/// The element name of an array signature: a primitive's display name, or
/// the object signature with its leading marker byte and trailing
/// semicolon dropped.
pub open spec fn spec_element_name(c: Seq<u8>, dims: int) -> Seq<u8> {
    if dims >= c.len() {
        Seq::empty()
    } else {
        match spec_primitive_name(c[dims]) {
            Some(p) => p,
            None => if dims + 2 <= c.len() {
                c.subrange(dims + 1, c.len() - 1)
            } else {
                Seq::empty()
            },
        }
    }
}

/// What a class signature body (already stripped of any `L…;` wrapper at
/// the top level) displays as: leading array markers counted, the element
/// name decoded, dots for slashes, one `[]` per dimension.
pub open spec fn spec_class_display(c: Seq<u8>) -> Seq<u8> {
    {
        let dims = spec_find_not(c, 0, LEFT_BRACKET);
        let base = if dims == 0 {
            c
        } else {
            spec_element_name(c, dims)
        };
        spec_dot_mapped(base) + spec_brackets(dims)
    }
}

/// Append `[]` to a buffer `n` times.
fn push_brackets(dst: &mut Vec<u8>, n: usize)
    ensures
        final(dst)@ == old(dst)@ + spec_brackets(n as int),
{
    let mut k: usize = 0;
    while k < n
        invariant
            0 <= k <= n,
            dst@ == old(dst)@ + spec_brackets(k as int),
        decreases n - k,
    {
        dst.push(LEFT_BRACKET);
        dst.push(RIGHT_BRACKET);
        proof {
            assert(dst@ =~= old(dst)@ + spec_brackets(k + 1));
        }
        k = k + 1;
    }
}

/// Append the primitive display name for signature byte `b`, saying whether
/// one exists.
fn push_primitive(dst: &mut Vec<u8>, b: u8) -> (r: bool)
    ensures
        r == spec_primitive_name(b) is Some,
        r ==> final(dst)@ == old(dst)@ + spec_primitive_name(b).unwrap(),
        !r ==> final(dst)@ == old(dst)@,
{
    let word: Vec<u8> = if b == 66 {
        let mut v: Vec<u8> = Vec::new();
        v.push(98);
        v.push(121);
        v.push(116);
        v.push(101);
        v
    } else if b == 67 {
        let mut v: Vec<u8> = Vec::new();
        v.push(99);
        v.push(104);
        v.push(97);
        v.push(114);
        v
    } else if b == 73 {
        let mut v: Vec<u8> = Vec::new();
        v.push(105);
        v.push(110);
        v.push(116);
        v
    } else if b == 74 {
        let mut v: Vec<u8> = Vec::new();
        v.push(108);
        v.push(111);
        v.push(110);
        v.push(103);
        v
    } else if b == 83 {
        let mut v: Vec<u8> = Vec::new();
        v.push(115);
        v.push(104);
        v.push(111);
        v.push(114);
        v.push(116);
        v
    } else if b == 90 {
        let mut v: Vec<u8> = Vec::new();
        v.push(98);
        v.push(111);
        v.push(111);
        v.push(108);
        v.push(101);
        v.push(97);
        v.push(110);
        v
    } else if b == 70 {
        let mut v: Vec<u8> = Vec::new();
        v.push(102);
        v.push(108);
        v.push(111);
        v.push(97);
        v.push(116);
        v
    } else if b == 68 {
        let mut v: Vec<u8> = Vec::new();
        v.push(100);
        v.push(111);
        v.push(117);
        v.push(98);
        v.push(108);
        v.push(101);
        v
    } else {
        return false;
    };
    proof {
        assert(word@ =~= spec_primitive_name(b).unwrap());
    }
    append_bytes(dst, word.as_slice());
    true
}

/// Append a class signature body in display form: slashes become dots and
/// `[]` trails per array dimension.
pub fn append_class_display(dst: &mut Vec<u8>, class: &[u8])
    ensures
        final(dst)@ == old(dst)@ + spec_class_display(class@),
{
    let dims = find_not_byte(class, 0, LEFT_BRACKET);
    let ghost dimsg = dims as int;
    let mut base: Vec<u8> = Vec::new();
    if dims == 0 {
        append_bytes(&mut base, class);
    } else if dims >= class.len() {
        proof {
            assert(base@ =~= spec_element_name(class@, dimsg));
        }
    } else {
        let b = class[dims];
        let had = push_primitive(&mut base, b);
        if !had {
            if class.len() - dims >= 2 {
                append_bytes(
                    &mut base,
                    crate::maps::copy_range(class, dims + 1, class.len() - 1).as_slice(),
                );
            }
            proof {
                assert(base@ =~= spec_element_name(class@, dimsg));
            }
        }
    }
    let mut i: usize = 0;
    let ghost baseg = base@;
    let mut mapped: Vec<u8> = Vec::new();
    while i < base.len()
        invariant
            0 <= i <= base@.len(),
            base@ == baseg,
            mapped@ == spec_dot_mapped(baseg).take(i as int),
        decreases base@.len() - i,
    {
        let b = base[i];
        if b == SLASH && (i + 1 >= base.len() || !(base[i + 1] >= 48 && base[i + 1] <= 57)) {
            mapped.push(PERIOD);
        } else {
            mapped.push(b);
        }
        proof {
            assert(mapped@ =~= spec_dot_mapped(baseg).take(i + 1));
        }
        i = i + 1;
    }
    proof {
        assert(mapped@ =~= spec_dot_mapped(baseg));
    }
    append_bytes(dst, mapped.as_slice());
    push_brackets(dst, dims);
}

/// What a full class signature renders as: an `L…;` wrapper is stripped
/// before the body is decoded.
pub open spec fn spec_render_class_signature(sig: Seq<u8>) -> Seq<u8> {
    if sig.len() >= 2 && sig[0] == UPPER_L && sig.last() == SEMICOLON {
        spec_class_display(sig.subrange(1, sig.len() - 1))
    } else {
        spec_class_display(sig)
    }
}

/// Render a class signature for display: `Ljava/lang/String;` shows as
/// `java.lang.String`, `[[I` as `int[][]`, `[B` as `byte[]`.
pub fn render_class_signature(sig: &[u8]) -> (r: Vec<u8>)
    ensures
        r@ == spec_render_class_signature(sig@),
{
    let mut out: Vec<u8> = Vec::new();
    if sig.len() >= 2 && sig[0] == UPPER_L && sig[sig.len() - 1] == SEMICOLON {
        append_class_display(&mut out, crate::maps::copy_range(sig, 1, sig.len() - 1).as_slice());
    } else {
        append_class_display(&mut out, sig);
    }
    out
}

/// What the demangler makes of a mangled name. The result depends on the
/// name's bytes alone.
pub uninterp spec fn demangled_of(s: Seq<u8>) -> Seq<u8>;

/// Whether the demangler accepts a name at all. With default options the
/// parse reads nothing but the bytes, so acceptance too is a function of
/// the name alone.
pub uninterp spec fn demangle_parses(s: Seq<u8>) -> bool;

/// Relies on cpp_demangle::Symbol::new and Symbol::demangle: parsing an
/// Itanium-ABI name and formatting it read nothing but the given bytes
/// (and carry fixed recursion limits, so neither phase panics), so both
/// acceptance and the demangled form are functions of the name alone.
#[verifier::external_body]
fn demangle_itanium(name: &[u8]) -> (r: Option<Vec<u8>>)
    ensures
        r is Some <==> demangle_parses(name@),
        r matches Some(v) ==> v@ == demangled_of(name@),
{
    match cpp_demangle::Symbol::new(name) {
        Ok(sym) => match sym.demangle() {
            Ok(text) => Some(text.into_bytes()),
            Err(_) => None,
        },
        Err(_) => None,
    }
}

/// The `_Z` prefix that marks an Itanium-ABI mangled name.
pub open spec fn spec_mangle_prefix() -> Seq<u8> {
    seq![UNDERSCORE, UPPER_Z]
}

/// What a native symbol displays as: its demangled form where it carries
/// the Itanium prefix and the demangler accepts it, the raw bytes
/// otherwise.
pub open spec fn spec_native_display(name: Seq<u8>) -> Seq<u8> {
    if spec_starts_with(name, spec_mangle_prefix()) && demangle_parses(name) {
        demangled_of(name)
    } else {
        name
    }
}

/// A frame as the consumer sees it once its raw handles are resolved:
/// an OS thread id, a native symbol name, a managed method's signature
/// triple, or a failed managed lookup.
pub enum ResolvedFrame<'a> {
    ThreadId(u64),
    Native(&'a [u8]),
    Java { class_sig: &'a [u8], method_name: &'a [u8], method_sig: &'a [u8] },
    JavaError,
}

/// The fallback name for a thread-id frame with no recorded thread.
pub open spec fn spec_unknown_thread() -> Seq<u8> {
    seq![
        117u8,
        110u8,
        107u8,
        110u8,
        111u8,
        119u8,
        110u8,
        32u8,
        116u8,
        104u8,
        114u8,
        101u8,
        97u8,
        100u8,
    ]
}

/// The name a failed managed lookup renders as.
pub open spec fn spec_jvmti_error() -> Seq<u8> {
    seq![91u8, 106u8, 118u8, 109u8, 116u8, 105u8, 69u8, 114u8, 114u8, 111u8, 114u8, 93u8]
}

/// What a managed frame displays as: the rendered class, a dot, the method
/// name, then the method's signature.
pub open spec fn spec_java_frame_name(
    class_sig: Seq<u8>,
    method_name: Seq<u8>,
    method_sig: Seq<u8>,
) -> Seq<u8> {
    spec_render_class_signature(class_sig) + seq![PERIOD] + method_name + method_sig
}

/// The renderer's scratch buffer.
pub struct FrameName {
    pub name: Vec<u8>,
}

impl FrameName {
    pub fn new() -> (r: Self)
        ensures
            r.name@.len() == 0,
    {
        FrameName { name: Vec::new() }
    }

    pub fn bytes(&self) -> (r: &[u8])
        ensures
            r@ == self.name@,
    {
        self.name.as_slice()
    }

    /// Append a class signature body in display form.
    pub fn java_class_name(&mut self, class: &[u8])
        ensures
            final(self).name@ == old(self).name@ + spec_class_display(class@),
    {
        append_class_display(&mut self.name, class);
    }

    /// Append a native symbol: a name with the Itanium `_Z` prefix is
    /// demangled exactly when the demangler accepts it; any other name
    /// passes through unchanged.
    pub fn decode_native_name(&mut self, name: &[u8])
        ensures
            final(self).name@ == old(self).name@ + spec_native_display(name@),
    {
        let mangled = name.len() >= 2 && name[0] == UNDERSCORE && name[1] == UPPER_Z;
        proof {
            if mangled {
                assert(name@.take(2) =~= spec_mangle_prefix());
            } else {
                assert(spec_starts_with(name@, spec_mangle_prefix()) ==> (name@.take(2)[0]
                    == UNDERSCORE && name@.take(2)[1] == UPPER_Z));
            }
        }
        if mangled {
            match demangle_itanium(name) {
                Some(text) => append_bytes(&mut self.name, text.as_slice()),
                None => append_bytes(&mut self.name, name),
            }
        } else {
            append_bytes(&mut self.name, name);
        }
    }

    /// Render one resolved frame into the (cleared) buffer: the recorded
    /// thread name or the unknown-thread fallback for a thread-id frame,
    /// the possibly demangled symbol for a native frame, the assembled
    /// `class.method(signature)` for a managed frame, and the error marker
    /// where the managed lookup failed.
    pub fn name(&mut self, frame: &ResolvedFrame, pool: &HashMap<u64, ThreadInfo>)
        ensures
            match *frame {
                ResolvedFrame::ThreadId(tid) => final(self).name@ == if pool@.contains_key(tid) {
                    pool@[tid].name@
                } else {
                    spec_unknown_thread()
                },
                ResolvedFrame::Native(sym) => final(self).name@ == spec_native_display(sym@),
                ResolvedFrame::Java { class_sig, method_name, method_sig } => final(self).name@
                    == spec_java_frame_name(class_sig@, method_name@, method_sig@),
                ResolvedFrame::JavaError => final(self).name@ == spec_jvmti_error(),
            },
    {
        broadcast use vstd::std_specs::hash::group_hash_axioms;

        self.name.clear();
        match frame {
            ResolvedFrame::ThreadId(tid) => {
                match pool.get(tid) {
                    Some(info) => {
                        append_bytes(&mut self.name, info.name.as_slice());
                        proof {
                            assert(self.name@ =~= pool@[*tid].name@);
                        }
                    },
                    None => {
                        let mut v: Vec<u8> = Vec::new();
                        v.push(117);
                        v.push(110);
                        v.push(107);
                        v.push(110);
                        v.push(111);
                        v.push(119);
                        v.push(110);
                        v.push(32);
                        v.push(116);
                        v.push(104);
                        v.push(114);
                        v.push(101);
                        v.push(97);
                        v.push(100);
                        proof {
                            assert(v@ =~= spec_unknown_thread());
                        }
                        append_bytes(&mut self.name, v.as_slice());
                        proof {
                            assert(self.name@ =~= spec_unknown_thread());
                        }
                    },
                }
            },
            ResolvedFrame::Native(sym) => {
                self.decode_native_name(sym);
                proof {
                    assert(self.name@ =~= spec_native_display(sym@));
                }
            },
            ResolvedFrame::Java { class_sig, method_name, method_sig } => {
                let rendered = render_class_signature(class_sig);
                append_bytes(&mut self.name, rendered.as_slice());
                self.name.push(PERIOD);
                append_bytes(&mut self.name, method_name);
                append_bytes(&mut self.name, method_sig);
                proof {
                    assert(self.name@ =~= spec_java_frame_name(
                        class_sig@,
                        method_name@,
                        method_sig@,
                    ));
                }
            },
            ResolvedFrame::JavaError => {
                let mut v: Vec<u8> = Vec::new();
                v.push(91);
                v.push(106);
                v.push(118);
                v.push(109);
                v.push(116);
                v.push(105);
                v.push(69);
                v.push(114);
                v.push(114);
                v.push(111);
                v.push(114);
                v.push(93);
                proof {
                    assert(v@ =~= spec_jvmti_error());
                }
                append_bytes(&mut self.name, v.as_slice());
                proof {
                    assert(self.name@ =~= spec_jvmti_error());
                }
            },
        }
    }
}

} // verus!
