//! The resolver for the runtime's exported VM-structures table: the table's
//! entries, handed in as plain values, decide the field offsets the sampler
//! needs to inspect runtime-internal thread, code-heap and method state.
//! Each entry names a type and a field; the last entry naming a known pair
//! wins. Capability flags are derived once the offsets stand.

use vstd::prelude::*;
use crate::bytes::bytes_eq;

verus! {

/// One decoded entry of the exported table: the type and field names, the
/// recorded field offset, and the value read from the entry's address slot
/// (dereferenced once more by the caller for the table-valued entries).
pub struct VmStructEntry {
    pub struct_name: Vec<u8>,
    pub field_name: Vec<u8>,
    pub offset: i32,
    pub address: u64,
}

/// The resolved offsets and derived capabilities. Offsets start at `-1`
/// (absent), addresses and handles at zero.
pub struct VMStruct {
    pub klass_name_offset: i32,
    pub symbol_length_offset: i32,
    pub symbol_length_and_refcount_offset: i32,
    pub symbol_body_offset: i32,
    pub nmethod_name_offset: i32,
    pub nmethod_method_offset: i32,
    pub nmethod_entry_offset: i32,
    pub nmethod_state_offset: i32,
    pub nmethod_level_offset: i32,
    pub method_constmethod_offset: i32,
    pub method_code_offset: i32,
    pub constmethod_constants_offset: i32,
    pub constmethod_idnum_offset: i32,
    pub pool_holder_offset: i32,
    pub class_loader_data_offset: i32,
    pub methods_offset: i32,
    pub jmethod_ids_offset: i32,
    pub class_loader_data_next_offset: i32,
    pub klass_offset_addr: u64,
    pub thread_osthread_offset: i32,
    pub thread_env_offset: i32,
    pub thread_anchor_offset: i32,
    pub thread_state_offset: i32,
    pub osthread_id_offset: i32,
    pub anchor_sp_offset: i32,
    pub anchor_pc_offset: i32,
    pub frame_size_offset: i32,
    pub frame_complete_offset: i32,
    pub code_heap_addr: u64,
    pub code_heap_low_addr: u64,
    pub code_heap_high_addr: u64,
    pub code_heap_low: u64,
    pub code_heap_high: u64,
    pub code_heap_memory_offset: i32,
    pub code_heap_segmap_offset: i32,
    pub code_heap_segment_shift: i32,
    pub vs_low_bound_offset: i32,
    pub code_heap0: u64,
    pub code_heap1: u64,
    pub code_heap2: u64,
    pub vs_high_bound_offset: i32,
    pub vs_low_offset: i32,
    pub vs_high_offset: i32,
    pub array_data_offset: i32,
    pub flag_name_offset: i32,
    pub flag_addr_offset: i32,
    pub flags_addr: u64,
    pub flag_count: i32,
    pub has_perm: bool,
    pub klass: u64,
    pub tid: u64,
    pub eetop: u64,
    pub has_class_names: bool,
    pub has_method_structs: bool,
    pub has_native_thread_id: bool,
}

/// The bytes of `Klass`.
pub open spec fn spec_w_klass() -> Seq<u8> {
    seq![75u8, 108u8, 97u8, 115u8, 115u8]
}

fn w_klass() -> (r: Vec<u8>)
    ensures
        r@ == spec_w_klass(),
{
    let mut v: Vec<u8> = Vec::new();
    v.push(75);
    v.push(108);
    v.push(97);
    v.push(115);
    v.push(115);
    proof {
        assert(v@ =~= spec_w_klass());
    }
    v
}

/// The bytes of `Symbol`.
pub open spec fn spec_w_symbol() -> Seq<u8> {
    seq![83u8, 121u8, 109u8, 98u8, 111u8, 108u8]
}

fn w_symbol() -> (r: Vec<u8>)
    ensures
        r@ == spec_w_symbol(),
{
    let mut v: Vec<u8> = Vec::new();
    v.push(83);
    v.push(121);
    v.push(109);
    v.push(98);
    v.push(111);
    v.push(108);
    proof {
        assert(v@ =~= spec_w_symbol());
    }
    v
}

/// The bytes of `CompiledMethod`.
pub open spec fn spec_w_compiled_method() -> Seq<u8> {
    seq![67u8, 111u8, 109u8, 112u8, 105u8, 108u8, 101u8, 100u8, 77u8, 101u8, 116u8, 104u8, 111u8, 100u8]
}

fn w_compiled_method() -> (r: Vec<u8>)
    ensures
        r@ == spec_w_compiled_method(),
{
    let mut v: Vec<u8> = Vec::new();
    v.push(67);
    v.push(111);
    v.push(109);
    v.push(112);
    v.push(105);
    v.push(108);
    v.push(101);
    v.push(100);
    v.push(77);
    v.push(101);
    v.push(116);
    v.push(104);
    v.push(111);
    v.push(100);
    proof {
        assert(v@ =~= spec_w_compiled_method());
    }
    v
}

/// The bytes of `nmethod`.
pub open spec fn spec_w_nmethod_t() -> Seq<u8> {
    seq![110u8, 109u8, 101u8, 116u8, 104u8, 111u8, 100u8]
}

fn w_nmethod_t() -> (r: Vec<u8>)
    ensures
        r@ == spec_w_nmethod_t(),
{
    let mut v: Vec<u8> = Vec::new();
    v.push(110);
    v.push(109);
    v.push(101);
    v.push(116);
    v.push(104);
    v.push(111);
    v.push(100);
    proof {
        assert(v@ =~= spec_w_nmethod_t());
    }
    v
}

/// The bytes of `Method`.
pub open spec fn spec_w_method_t() -> Seq<u8> {
    seq![77u8, 101u8, 116u8, 104u8, 111u8, 100u8]
}

fn w_method_t() -> (r: Vec<u8>)
    ensures
        r@ == spec_w_method_t(),
{
    let mut v: Vec<u8> = Vec::new();
    v.push(77);
    v.push(101);
    v.push(116);
    v.push(104);
    v.push(111);
    v.push(100);
    proof {
        assert(v@ =~= spec_w_method_t());
    }
    v
}

/// The bytes of `ConstMethod`.
pub open spec fn spec_w_const_method() -> Seq<u8> {
    seq![67u8, 111u8, 110u8, 115u8, 116u8, 77u8, 101u8, 116u8, 104u8, 111u8, 100u8]
}

fn w_const_method() -> (r: Vec<u8>)
    ensures
        r@ == spec_w_const_method(),
{
    let mut v: Vec<u8> = Vec::new();
    v.push(67);
    v.push(111);
    v.push(110);
    v.push(115);
    v.push(116);
    v.push(77);
    v.push(101);
    v.push(116);
    v.push(104);
    v.push(111);
    v.push(100);
    proof {
        assert(v@ =~= spec_w_const_method());
    }
    v
}

/// The bytes of `ConstantPool`.
pub open spec fn spec_w_constant_pool() -> Seq<u8> {
    seq![67u8, 111u8, 110u8, 115u8, 116u8, 97u8, 110u8, 116u8, 80u8, 111u8, 111u8, 108u8]
}

fn w_constant_pool() -> (r: Vec<u8>)
    ensures
        r@ == spec_w_constant_pool(),
{
    let mut v: Vec<u8> = Vec::new();
    v.push(67);
    v.push(111);
    v.push(110);
    v.push(115);
    v.push(116);
    v.push(97);
    v.push(110);
    v.push(116);
    v.push(80);
    v.push(111);
    v.push(111);
    v.push(108);
    proof {
        assert(v@ =~= spec_w_constant_pool());
    }
    v
}

/// The bytes of `InstanceKlass`.
pub open spec fn spec_w_instance_klass() -> Seq<u8> {
    seq![73u8, 110u8, 115u8, 116u8, 97u8, 110u8, 99u8, 101u8, 75u8, 108u8, 97u8, 115u8, 115u8]
}

fn w_instance_klass() -> (r: Vec<u8>)
    ensures
        r@ == spec_w_instance_klass(),
{
    let mut v: Vec<u8> = Vec::new();
    v.push(73);
    v.push(110);
    v.push(115);
    v.push(116);
    v.push(97);
    v.push(110);
    v.push(99);
    v.push(101);
    v.push(75);
    v.push(108);
    v.push(97);
    v.push(115);
    v.push(115);
    proof {
        assert(v@ =~= spec_w_instance_klass());
    }
    v
}

/// The bytes of `ClassLoaderData`.
pub open spec fn spec_w_class_loader_data() -> Seq<u8> {
    seq![67u8, 108u8, 97u8, 115u8, 115u8, 76u8, 111u8, 97u8, 100u8, 101u8, 114u8, 68u8, 97u8, 116u8, 97u8]
}

fn w_class_loader_data() -> (r: Vec<u8>)
    ensures
        r@ == spec_w_class_loader_data(),
{
    let mut v: Vec<u8> = Vec::new();
    v.push(67);
    v.push(108);
    v.push(97);
    v.push(115);
    v.push(115);
    v.push(76);
    v.push(111);
    v.push(97);
    v.push(100);
    v.push(101);
    v.push(114);
    v.push(68);
    v.push(97);
    v.push(116);
    v.push(97);
    proof {
        assert(v@ =~= spec_w_class_loader_data());
    }
    v
}

/// The bytes of `java_lang_Class`.
pub open spec fn spec_w_java_lang_class() -> Seq<u8> {
    seq![106u8, 97u8, 118u8, 97u8, 95u8, 108u8, 97u8, 110u8, 103u8, 95u8, 67u8, 108u8, 97u8, 115u8, 115u8]
}

fn w_java_lang_class() -> (r: Vec<u8>)
    ensures
        r@ == spec_w_java_lang_class(),
{
    let mut v: Vec<u8> = Vec::new();
    v.push(106);
    v.push(97);
    v.push(118);
    v.push(97);
    v.push(95);
    v.push(108);
    v.push(97);
    v.push(110);
    v.push(103);
    v.push(95);
    v.push(67);
    v.push(108);
    v.push(97);
    v.push(115);
    v.push(115);
    proof {
        assert(v@ =~= spec_w_java_lang_class());
    }
    v
}

/// The bytes of `JavaThread`.
pub open spec fn spec_w_java_thread() -> Seq<u8> {
    seq![74u8, 97u8, 118u8, 97u8, 84u8, 104u8, 114u8, 101u8, 97u8, 100u8]
}

fn w_java_thread() -> (r: Vec<u8>)
    ensures
        r@ == spec_w_java_thread(),
{
    let mut v: Vec<u8> = Vec::new();
    v.push(74);
    v.push(97);
    v.push(118);
    v.push(97);
    v.push(84);
    v.push(104);
    v.push(114);
    v.push(101);
    v.push(97);
    v.push(100);
    proof {
        assert(v@ =~= spec_w_java_thread());
    }
    v
}

/// The bytes of `OSThread`.
pub open spec fn spec_w_os_thread() -> Seq<u8> {
    seq![79u8, 83u8, 84u8, 104u8, 114u8, 101u8, 97u8, 100u8]
}

fn w_os_thread() -> (r: Vec<u8>)
    ensures
        r@ == spec_w_os_thread(),
{
    let mut v: Vec<u8> = Vec::new();
    v.push(79);
    v.push(83);
    v.push(84);
    v.push(104);
    v.push(114);
    v.push(101);
    v.push(97);
    v.push(100);
    proof {
        assert(v@ =~= spec_w_os_thread());
    }
    v
}

/// The bytes of `JavaFrameAnchor`.
pub open spec fn spec_w_java_frame_anchor() -> Seq<u8> {
    seq![74u8, 97u8, 118u8, 97u8, 70u8, 114u8, 97u8, 109u8, 101u8, 65u8, 110u8, 99u8, 104u8, 111u8, 114u8]
}

fn w_java_frame_anchor() -> (r: Vec<u8>)
    ensures
        r@ == spec_w_java_frame_anchor(),
{
    let mut v: Vec<u8> = Vec::new();
    v.push(74);
    v.push(97);
    v.push(118);
    v.push(97);
    v.push(70);
    v.push(114);
    v.push(97);
    v.push(109);
    v.push(101);
    v.push(65);
    v.push(110);
    v.push(99);
    v.push(104);
    v.push(111);
    v.push(114);
    proof {
        assert(v@ =~= spec_w_java_frame_anchor());
    }
    v
}

/// The bytes of `CodeBlob`.
pub open spec fn spec_w_code_blob() -> Seq<u8> {
    seq![67u8, 111u8, 100u8, 101u8, 66u8, 108u8, 111u8, 98u8]
}

fn w_code_blob() -> (r: Vec<u8>)
    ensures
        r@ == spec_w_code_blob(),
{
    let mut v: Vec<u8> = Vec::new();
    v.push(67);
    v.push(111);
    v.push(100);
    v.push(101);
    v.push(66);
    v.push(108);
    v.push(111);
    v.push(98);
    proof {
        assert(v@ =~= spec_w_code_blob());
    }
    v
}

/// The bytes of `CodeCache`.
pub open spec fn spec_w_code_cache_t() -> Seq<u8> {
    seq![67u8, 111u8, 100u8, 101u8, 67u8, 97u8, 99u8, 104u8, 101u8]
}

fn w_code_cache_t() -> (r: Vec<u8>)
    ensures
        r@ == spec_w_code_cache_t(),
{
    let mut v: Vec<u8> = Vec::new();
    v.push(67);
    v.push(111);
    v.push(100);
    v.push(101);
    v.push(67);
    v.push(97);
    v.push(99);
    v.push(104);
    v.push(101);
    proof {
        assert(v@ =~= spec_w_code_cache_t());
    }
    v
}

/// The bytes of `CodeHeap`.
pub open spec fn spec_w_code_heap_t() -> Seq<u8> {
    seq![67u8, 111u8, 100u8, 101u8, 72u8, 101u8, 97u8, 112u8]
}

fn w_code_heap_t() -> (r: Vec<u8>)
    ensures
        r@ == spec_w_code_heap_t(),
{
    let mut v: Vec<u8> = Vec::new();
    v.push(67);
    v.push(111);
    v.push(100);
    v.push(101);
    v.push(72);
    v.push(101);
    v.push(97);
    v.push(112);
    proof {
        assert(v@ =~= spec_w_code_heap_t());
    }
    v
}

/// The bytes of `VirtualSpace`.
pub open spec fn spec_w_virtual_space() -> Seq<u8> {
    seq![86u8, 105u8, 114u8, 116u8, 117u8, 97u8, 108u8, 83u8, 112u8, 97u8, 99u8, 101u8]
}

fn w_virtual_space() -> (r: Vec<u8>)
    ensures
        r@ == spec_w_virtual_space(),
{
    let mut v: Vec<u8> = Vec::new();
    v.push(86);
    v.push(105);
    v.push(114);
    v.push(116);
    v.push(117);
    v.push(97);
    v.push(108);
    v.push(83);
    v.push(112);
    v.push(97);
    v.push(99);
    v.push(101);
    proof {
        assert(v@ =~= spec_w_virtual_space());
    }
    v
}

/// The bytes of `GrowableArray<int>`.
pub open spec fn spec_w_growable_array_int() -> Seq<u8> {
    seq![71u8, 114u8, 111u8, 119u8, 97u8, 98u8, 108u8, 101u8, 65u8, 114u8, 114u8, 97u8, 121u8, 60u8, 105u8, 110u8, 116u8, 62u8]
}

fn w_growable_array_int() -> (r: Vec<u8>)
    ensures
        r@ == spec_w_growable_array_int(),
{
    let mut v: Vec<u8> = Vec::new();
    v.push(71);
    v.push(114);
    v.push(111);
    v.push(119);
    v.push(97);
    v.push(98);
    v.push(108);
    v.push(101);
    v.push(65);
    v.push(114);
    v.push(114);
    v.push(97);
    v.push(121);
    v.push(60);
    v.push(105);
    v.push(110);
    v.push(116);
    v.push(62);
    proof {
        assert(v@ =~= spec_w_growable_array_int());
    }
    v
}

/// The bytes of `JVMFlag`.
pub open spec fn spec_w_jvm_flag() -> Seq<u8> {
    seq![74u8, 86u8, 77u8, 70u8, 108u8, 97u8, 103u8]
}

fn w_jvm_flag() -> (r: Vec<u8>)
    ensures
        r@ == spec_w_jvm_flag(),
{
    let mut v: Vec<u8> = Vec::new();
    v.push(74);
    v.push(86);
    v.push(77);
    v.push(70);
    v.push(108);
    v.push(97);
    v.push(103);
    proof {
        assert(v@ =~= spec_w_jvm_flag());
    }
    v
}

/// The bytes of `Flag`.
pub open spec fn spec_w_flag_t() -> Seq<u8> {
    seq![70u8, 108u8, 97u8, 103u8]
}

fn w_flag_t() -> (r: Vec<u8>)
    ensures
        r@ == spec_w_flag_t(),
{
    let mut v: Vec<u8> = Vec::new();
    v.push(70);
    v.push(108);
    v.push(97);
    v.push(103);
    proof {
        assert(v@ =~= spec_w_flag_t());
    }
    v
}

/// The bytes of `PermGen`.
pub open spec fn spec_w_perm_gen() -> Seq<u8> {
    seq![80u8, 101u8, 114u8, 109u8, 71u8, 101u8, 110u8]
}

fn w_perm_gen() -> (r: Vec<u8>)
    ensures
        r@ == spec_w_perm_gen(),
{
    let mut v: Vec<u8> = Vec::new();
    v.push(80);
    v.push(101);
    v.push(114);
    v.push(109);
    v.push(71);
    v.push(101);
    v.push(110);
    proof {
        assert(v@ =~= spec_w_perm_gen());
    }
    v
}

/// The bytes of `_name`.
pub open spec fn spec_w_f_name() -> Seq<u8> {
    seq![95u8, 110u8, 97u8, 109u8, 101u8]
}

fn w_f_name() -> (r: Vec<u8>)
    ensures
        r@ == spec_w_f_name(),
{
    let mut v: Vec<u8> = Vec::new();
    v.push(95);
    v.push(110);
    v.push(97);
    v.push(109);
    v.push(101);
    proof {
        assert(v@ =~= spec_w_f_name());
    }
    v
}

/// The bytes of `_length`.
pub open spec fn spec_w_f_length() -> Seq<u8> {
    seq![95u8, 108u8, 101u8, 110u8, 103u8, 116u8, 104u8]
}

fn w_f_length() -> (r: Vec<u8>)
    ensures
        r@ == spec_w_f_length(),
{
    let mut v: Vec<u8> = Vec::new();
    v.push(95);
    v.push(108);
    v.push(101);
    v.push(110);
    v.push(103);
    v.push(116);
    v.push(104);
    proof {
        assert(v@ =~= spec_w_f_length());
    }
    v
}

/// The bytes of `_length_and_refcount`.
pub open spec fn spec_w_f_length_and_refcount() -> Seq<u8> {
    seq![95u8, 108u8, 101u8, 110u8, 103u8, 116u8, 104u8, 95u8, 97u8, 110u8, 100u8, 95u8, 114u8, 101u8, 102u8, 99u8, 111u8, 117u8, 110u8, 116u8]
}

fn w_f_length_and_refcount() -> (r: Vec<u8>)
    ensures
        r@ == spec_w_f_length_and_refcount(),
{
    let mut v: Vec<u8> = Vec::new();
    v.push(95);
    v.push(108);
    v.push(101);
    v.push(110);
    v.push(103);
    v.push(116);
    v.push(104);
    v.push(95);
    v.push(97);
    v.push(110);
    v.push(100);
    v.push(95);
    v.push(114);
    v.push(101);
    v.push(102);
    v.push(99);
    v.push(111);
    v.push(117);
    v.push(110);
    v.push(116);
    proof {
        assert(v@ =~= spec_w_f_length_and_refcount());
    }
    v
}

/// The bytes of `_body`.
pub open spec fn spec_w_f_body() -> Seq<u8> {
    seq![95u8, 98u8, 111u8, 100u8, 121u8]
}

fn w_f_body() -> (r: Vec<u8>)
    ensures
        r@ == spec_w_f_body(),
{
    let mut v: Vec<u8> = Vec::new();
    v.push(95);
    v.push(98);
    v.push(111);
    v.push(100);
    v.push(121);
    proof {
        assert(v@ =~= spec_w_f_body());
    }
    v
}

/// The bytes of `_method`.
pub open spec fn spec_w_f_method() -> Seq<u8> {
    seq![95u8, 109u8, 101u8, 116u8, 104u8, 111u8, 100u8]
}

fn w_f_method() -> (r: Vec<u8>)
    ensures
        r@ == spec_w_f_method(),
{
    let mut v: Vec<u8> = Vec::new();
    v.push(95);
    v.push(109);
    v.push(101);
    v.push(116);
    v.push(104);
    v.push(111);
    v.push(100);
    proof {
        assert(v@ =~= spec_w_f_method());
    }
    v
}

/// The bytes of `_verified_entry_point`.
pub open spec fn spec_w_f_verified_entry_point() -> Seq<u8> {
    seq![95u8, 118u8, 101u8, 114u8, 105u8, 102u8, 105u8, 101u8, 100u8, 95u8, 101u8, 110u8, 116u8, 114u8, 121u8, 95u8, 112u8, 111u8, 105u8, 110u8, 116u8]
}

fn w_f_verified_entry_point() -> (r: Vec<u8>)
    ensures
        r@ == spec_w_f_verified_entry_point(),
{
    let mut v: Vec<u8> = Vec::new();
    v.push(95);
    v.push(118);
    v.push(101);
    v.push(114);
    v.push(105);
    v.push(102);
    v.push(105);
    v.push(101);
    v.push(100);
    v.push(95);
    v.push(101);
    v.push(110);
    v.push(116);
    v.push(114);
    v.push(121);
    v.push(95);
    v.push(112);
    v.push(111);
    v.push(105);
    v.push(110);
    v.push(116);
    proof {
        assert(v@ =~= spec_w_f_verified_entry_point());
    }
    v
}

/// The bytes of `_state`.
pub open spec fn spec_w_f_state() -> Seq<u8> {
    seq![95u8, 115u8, 116u8, 97u8, 116u8, 101u8]
}

fn w_f_state() -> (r: Vec<u8>)
    ensures
        r@ == spec_w_f_state(),
{
    let mut v: Vec<u8> = Vec::new();
    v.push(95);
    v.push(115);
    v.push(116);
    v.push(97);
    v.push(116);
    v.push(101);
    proof {
        assert(v@ =~= spec_w_f_state());
    }
    v
}

/// The bytes of `_comp_level`.
pub open spec fn spec_w_f_comp_level() -> Seq<u8> {
    seq![95u8, 99u8, 111u8, 109u8, 112u8, 95u8, 108u8, 101u8, 118u8, 101u8, 108u8]
}

fn w_f_comp_level() -> (r: Vec<u8>)
    ensures
        r@ == spec_w_f_comp_level(),
{
    let mut v: Vec<u8> = Vec::new();
    v.push(95);
    v.push(99);
    v.push(111);
    v.push(109);
    v.push(112);
    v.push(95);
    v.push(108);
    v.push(101);
    v.push(118);
    v.push(101);
    v.push(108);
    proof {
        assert(v@ =~= spec_w_f_comp_level());
    }
    v
}

/// The bytes of `_constMethod`.
pub open spec fn spec_w_f_const_method() -> Seq<u8> {
    seq![95u8, 99u8, 111u8, 110u8, 115u8, 116u8, 77u8, 101u8, 116u8, 104u8, 111u8, 100u8]
}

fn w_f_const_method() -> (r: Vec<u8>)
    ensures
        r@ == spec_w_f_const_method(),
{
    let mut v: Vec<u8> = Vec::new();
    v.push(95);
    v.push(99);
    v.push(111);
    v.push(110);
    v.push(115);
    v.push(116);
    v.push(77);
    v.push(101);
    v.push(116);
    v.push(104);
    v.push(111);
    v.push(100);
    proof {
        assert(v@ =~= spec_w_f_const_method());
    }
    v
}

/// The bytes of `_code`.
pub open spec fn spec_w_f_code() -> Seq<u8> {
    seq![95u8, 99u8, 111u8, 100u8, 101u8]
}

fn w_f_code() -> (r: Vec<u8>)
    ensures
        r@ == spec_w_f_code(),
{
    let mut v: Vec<u8> = Vec::new();
    v.push(95);
    v.push(99);
    v.push(111);
    v.push(100);
    v.push(101);
    proof {
        assert(v@ =~= spec_w_f_code());
    }
    v
}

/// The bytes of `_constants`.
pub open spec fn spec_w_f_constants() -> Seq<u8> {
    seq![95u8, 99u8, 111u8, 110u8, 115u8, 116u8, 97u8, 110u8, 116u8, 115u8]
}

fn w_f_constants() -> (r: Vec<u8>)
    ensures
        r@ == spec_w_f_constants(),
{
    let mut v: Vec<u8> = Vec::new();
    v.push(95);
    v.push(99);
    v.push(111);
    v.push(110);
    v.push(115);
    v.push(116);
    v.push(97);
    v.push(110);
    v.push(116);
    v.push(115);
    proof {
        assert(v@ =~= spec_w_f_constants());
    }
    v
}

/// The bytes of `_method_idnum`.
pub open spec fn spec_w_f_method_idnum() -> Seq<u8> {
    seq![95u8, 109u8, 101u8, 116u8, 104u8, 111u8, 100u8, 95u8, 105u8, 100u8, 110u8, 117u8, 109u8]
}

fn w_f_method_idnum() -> (r: Vec<u8>)
    ensures
        r@ == spec_w_f_method_idnum(),
{
    let mut v: Vec<u8> = Vec::new();
    v.push(95);
    v.push(109);
    v.push(101);
    v.push(116);
    v.push(104);
    v.push(111);
    v.push(100);
    v.push(95);
    v.push(105);
    v.push(100);
    v.push(110);
    v.push(117);
    v.push(109);
    proof {
        assert(v@ =~= spec_w_f_method_idnum());
    }
    v
}

/// The bytes of `_pool_holder`.
pub open spec fn spec_w_f_pool_holder() -> Seq<u8> {
    seq![95u8, 112u8, 111u8, 111u8, 108u8, 95u8, 104u8, 111u8, 108u8, 100u8, 101u8, 114u8]
}

fn w_f_pool_holder() -> (r: Vec<u8>)
    ensures
        r@ == spec_w_f_pool_holder(),
{
    let mut v: Vec<u8> = Vec::new();
    v.push(95);
    v.push(112);
    v.push(111);
    v.push(111);
    v.push(108);
    v.push(95);
    v.push(104);
    v.push(111);
    v.push(108);
    v.push(100);
    v.push(101);
    v.push(114);
    proof {
        assert(v@ =~= spec_w_f_pool_holder());
    }
    v
}

/// The bytes of `_class_loader_data`.
pub open spec fn spec_w_f_class_loader_data() -> Seq<u8> {
    seq![95u8, 99u8, 108u8, 97u8, 115u8, 115u8, 95u8, 108u8, 111u8, 97u8, 100u8, 101u8, 114u8, 95u8, 100u8, 97u8, 116u8, 97u8]
}

fn w_f_class_loader_data() -> (r: Vec<u8>)
    ensures
        r@ == spec_w_f_class_loader_data(),
{
    let mut v: Vec<u8> = Vec::new();
    v.push(95);
    v.push(99);
    v.push(108);
    v.push(97);
    v.push(115);
    v.push(115);
    v.push(95);
    v.push(108);
    v.push(111);
    v.push(97);
    v.push(100);
    v.push(101);
    v.push(114);
    v.push(95);
    v.push(100);
    v.push(97);
    v.push(116);
    v.push(97);
    proof {
        assert(v@ =~= spec_w_f_class_loader_data());
    }
    v
}

/// The bytes of `_methods`.
pub open spec fn spec_w_f_methods() -> Seq<u8> {
    seq![95u8, 109u8, 101u8, 116u8, 104u8, 111u8, 100u8, 115u8]
}

fn w_f_methods() -> (r: Vec<u8>)
    ensures
        r@ == spec_w_f_methods(),
{
    let mut v: Vec<u8> = Vec::new();
    v.push(95);
    v.push(109);
    v.push(101);
    v.push(116);
    v.push(104);
    v.push(111);
    v.push(100);
    v.push(115);
    proof {
        assert(v@ =~= spec_w_f_methods());
    }
    v
}

/// The bytes of `_methods_jmethod_ids`.
pub open spec fn spec_w_f_methods_jmethod_ids() -> Seq<u8> {
    seq![95u8, 109u8, 101u8, 116u8, 104u8, 111u8, 100u8, 115u8, 95u8, 106u8, 109u8, 101u8, 116u8, 104u8, 111u8, 100u8, 95u8, 105u8, 100u8, 115u8]
}

fn w_f_methods_jmethod_ids() -> (r: Vec<u8>)
    ensures
        r@ == spec_w_f_methods_jmethod_ids(),
{
    let mut v: Vec<u8> = Vec::new();
    v.push(95);
    v.push(109);
    v.push(101);
    v.push(116);
    v.push(104);
    v.push(111);
    v.push(100);
    v.push(115);
    v.push(95);
    v.push(106);
    v.push(109);
    v.push(101);
    v.push(116);
    v.push(104);
    v.push(111);
    v.push(100);
    v.push(95);
    v.push(105);
    v.push(100);
    v.push(115);
    proof {
        assert(v@ =~= spec_w_f_methods_jmethod_ids());
    }
    v
}

/// The bytes of `_next`.
pub open spec fn spec_w_f_next() -> Seq<u8> {
    seq![95u8, 110u8, 101u8, 120u8, 116u8]
}

fn w_f_next() -> (r: Vec<u8>)
    ensures
        r@ == spec_w_f_next(),
{
    let mut v: Vec<u8> = Vec::new();
    v.push(95);
    v.push(110);
    v.push(101);
    v.push(120);
    v.push(116);
    proof {
        assert(v@ =~= spec_w_f_next());
    }
    v
}

/// The bytes of `_klass_offset`.
pub open spec fn spec_w_f_klass_offset() -> Seq<u8> {
    seq![95u8, 107u8, 108u8, 97u8, 115u8, 115u8, 95u8, 111u8, 102u8, 102u8, 115u8, 101u8, 116u8]
}

fn w_f_klass_offset() -> (r: Vec<u8>)
    ensures
        r@ == spec_w_f_klass_offset(),
{
    let mut v: Vec<u8> = Vec::new();
    v.push(95);
    v.push(107);
    v.push(108);
    v.push(97);
    v.push(115);
    v.push(115);
    v.push(95);
    v.push(111);
    v.push(102);
    v.push(102);
    v.push(115);
    v.push(101);
    v.push(116);
    proof {
        assert(v@ =~= spec_w_f_klass_offset());
    }
    v
}

/// The bytes of `_osthread`.
pub open spec fn spec_w_f_osthread() -> Seq<u8> {
    seq![95u8, 111u8, 115u8, 116u8, 104u8, 114u8, 101u8, 97u8, 100u8]
}

fn w_f_osthread() -> (r: Vec<u8>)
    ensures
        r@ == spec_w_f_osthread(),
{
    let mut v: Vec<u8> = Vec::new();
    v.push(95);
    v.push(111);
    v.push(115);
    v.push(116);
    v.push(104);
    v.push(114);
    v.push(101);
    v.push(97);
    v.push(100);
    proof {
        assert(v@ =~= spec_w_f_osthread());
    }
    v
}

/// The bytes of `_anchor`.
pub open spec fn spec_w_f_anchor() -> Seq<u8> {
    seq![95u8, 97u8, 110u8, 99u8, 104u8, 111u8, 114u8]
}

fn w_f_anchor() -> (r: Vec<u8>)
    ensures
        r@ == spec_w_f_anchor(),
{
    let mut v: Vec<u8> = Vec::new();
    v.push(95);
    v.push(97);
    v.push(110);
    v.push(99);
    v.push(104);
    v.push(111);
    v.push(114);
    proof {
        assert(v@ =~= spec_w_f_anchor());
    }
    v
}

/// The bytes of `_thread_state`.
pub open spec fn spec_w_f_thread_state() -> Seq<u8> {
    seq![95u8, 116u8, 104u8, 114u8, 101u8, 97u8, 100u8, 95u8, 115u8, 116u8, 97u8, 116u8, 101u8]
}

fn w_f_thread_state() -> (r: Vec<u8>)
    ensures
        r@ == spec_w_f_thread_state(),
{
    let mut v: Vec<u8> = Vec::new();
    v.push(95);
    v.push(116);
    v.push(104);
    v.push(114);
    v.push(101);
    v.push(97);
    v.push(100);
    v.push(95);
    v.push(115);
    v.push(116);
    v.push(97);
    v.push(116);
    v.push(101);
    proof {
        assert(v@ =~= spec_w_f_thread_state());
    }
    v
}

/// The bytes of `_thread_id`.
pub open spec fn spec_w_f_thread_id() -> Seq<u8> {
    seq![95u8, 116u8, 104u8, 114u8, 101u8, 97u8, 100u8, 95u8, 105u8, 100u8]
}

fn w_f_thread_id() -> (r: Vec<u8>)
    ensures
        r@ == spec_w_f_thread_id(),
{
    let mut v: Vec<u8> = Vec::new();
    v.push(95);
    v.push(116);
    v.push(104);
    v.push(114);
    v.push(101);
    v.push(97);
    v.push(100);
    v.push(95);
    v.push(105);
    v.push(100);
    proof {
        assert(v@ =~= spec_w_f_thread_id());
    }
    v
}

/// The bytes of `_last_Java_sp`.
pub open spec fn spec_w_f_last_java_sp() -> Seq<u8> {
    seq![95u8, 108u8, 97u8, 115u8, 116u8, 95u8, 74u8, 97u8, 118u8, 97u8, 95u8, 115u8, 112u8]
}

fn w_f_last_java_sp() -> (r: Vec<u8>)
    ensures
        r@ == spec_w_f_last_java_sp(),
{
    let mut v: Vec<u8> = Vec::new();
    v.push(95);
    v.push(108);
    v.push(97);
    v.push(115);
    v.push(116);
    v.push(95);
    v.push(74);
    v.push(97);
    v.push(118);
    v.push(97);
    v.push(95);
    v.push(115);
    v.push(112);
    proof {
        assert(v@ =~= spec_w_f_last_java_sp());
    }
    v
}

/// The bytes of `_last_Java_pc`.
pub open spec fn spec_w_f_last_java_pc() -> Seq<u8> {
    seq![95u8, 108u8, 97u8, 115u8, 116u8, 95u8, 74u8, 97u8, 118u8, 97u8, 95u8, 112u8, 99u8]
}

fn w_f_last_java_pc() -> (r: Vec<u8>)
    ensures
        r@ == spec_w_f_last_java_pc(),
{
    let mut v: Vec<u8> = Vec::new();
    v.push(95);
    v.push(108);
    v.push(97);
    v.push(115);
    v.push(116);
    v.push(95);
    v.push(74);
    v.push(97);
    v.push(118);
    v.push(97);
    v.push(95);
    v.push(112);
    v.push(99);
    proof {
        assert(v@ =~= spec_w_f_last_java_pc());
    }
    v
}

/// The bytes of `_frame_size`.
pub open spec fn spec_w_f_frame_size() -> Seq<u8> {
    seq![95u8, 102u8, 114u8, 97u8, 109u8, 101u8, 95u8, 115u8, 105u8, 122u8, 101u8]
}

fn w_f_frame_size() -> (r: Vec<u8>)
    ensures
        r@ == spec_w_f_frame_size(),
{
    let mut v: Vec<u8> = Vec::new();
    v.push(95);
    v.push(102);
    v.push(114);
    v.push(97);
    v.push(109);
    v.push(101);
    v.push(95);
    v.push(115);
    v.push(105);
    v.push(122);
    v.push(101);
    proof {
        assert(v@ =~= spec_w_f_frame_size());
    }
    v
}

/// The bytes of `_frame_complete_offset`.
pub open spec fn spec_w_f_frame_complete_offset() -> Seq<u8> {
    seq![95u8, 102u8, 114u8, 97u8, 109u8, 101u8, 95u8, 99u8, 111u8, 109u8, 112u8, 108u8, 101u8, 116u8, 101u8, 95u8, 111u8, 102u8, 102u8, 115u8, 101u8, 116u8]
}

fn w_f_frame_complete_offset() -> (r: Vec<u8>)
    ensures
        r@ == spec_w_f_frame_complete_offset(),
{
    let mut v: Vec<u8> = Vec::new();
    v.push(95);
    v.push(102);
    v.push(114);
    v.push(97);
    v.push(109);
    v.push(101);
    v.push(95);
    v.push(99);
    v.push(111);
    v.push(109);
    v.push(112);
    v.push(108);
    v.push(101);
    v.push(116);
    v.push(101);
    v.push(95);
    v.push(111);
    v.push(102);
    v.push(102);
    v.push(115);
    v.push(101);
    v.push(116);
    proof {
        assert(v@ =~= spec_w_f_frame_complete_offset());
    }
    v
}

/// The bytes of `_heap`.
pub open spec fn spec_w_f_heap() -> Seq<u8> {
    seq![95u8, 104u8, 101u8, 97u8, 112u8]
}

fn w_f_heap() -> (r: Vec<u8>)
    ensures
        r@ == spec_w_f_heap(),
{
    let mut v: Vec<u8> = Vec::new();
    v.push(95);
    v.push(104);
    v.push(101);
    v.push(97);
    v.push(112);
    proof {
        assert(v@ =~= spec_w_f_heap());
    }
    v
}

/// The bytes of `_heaps`.
pub open spec fn spec_w_f_heaps() -> Seq<u8> {
    seq![95u8, 104u8, 101u8, 97u8, 112u8, 115u8]
}

fn w_f_heaps() -> (r: Vec<u8>)
    ensures
        r@ == spec_w_f_heaps(),
{
    let mut v: Vec<u8> = Vec::new();
    v.push(95);
    v.push(104);
    v.push(101);
    v.push(97);
    v.push(112);
    v.push(115);
    proof {
        assert(v@ =~= spec_w_f_heaps());
    }
    v
}

/// The bytes of `_low_bound`.
pub open spec fn spec_w_f_low_bound() -> Seq<u8> {
    seq![95u8, 108u8, 111u8, 119u8, 95u8, 98u8, 111u8, 117u8, 110u8, 100u8]
}

fn w_f_low_bound() -> (r: Vec<u8>)
    ensures
        r@ == spec_w_f_low_bound(),
{
    let mut v: Vec<u8> = Vec::new();
    v.push(95);
    v.push(108);
    v.push(111);
    v.push(119);
    v.push(95);
    v.push(98);
    v.push(111);
    v.push(117);
    v.push(110);
    v.push(100);
    proof {
        assert(v@ =~= spec_w_f_low_bound());
    }
    v
}

/// The bytes of `_high_bound`.
pub open spec fn spec_w_f_high_bound() -> Seq<u8> {
    seq![95u8, 104u8, 105u8, 103u8, 104u8, 95u8, 98u8, 111u8, 117u8, 110u8, 100u8]
}

fn w_f_high_bound() -> (r: Vec<u8>)
    ensures
        r@ == spec_w_f_high_bound(),
{
    let mut v: Vec<u8> = Vec::new();
    v.push(95);
    v.push(104);
    v.push(105);
    v.push(103);
    v.push(104);
    v.push(95);
    v.push(98);
    v.push(111);
    v.push(117);
    v.push(110);
    v.push(100);
    proof {
        assert(v@ =~= spec_w_f_high_bound());
    }
    v
}

/// The bytes of `_memory`.
pub open spec fn spec_w_f_memory() -> Seq<u8> {
    seq![95u8, 109u8, 101u8, 109u8, 111u8, 114u8, 121u8]
}

fn w_f_memory() -> (r: Vec<u8>)
    ensures
        r@ == spec_w_f_memory(),
{
    let mut v: Vec<u8> = Vec::new();
    v.push(95);
    v.push(109);
    v.push(101);
    v.push(109);
    v.push(111);
    v.push(114);
    v.push(121);
    proof {
        assert(v@ =~= spec_w_f_memory());
    }
    v
}

/// The bytes of `_segmap`.
pub open spec fn spec_w_f_segmap() -> Seq<u8> {
    seq![95u8, 115u8, 101u8, 103u8, 109u8, 97u8, 112u8]
}

fn w_f_segmap() -> (r: Vec<u8>)
    ensures
        r@ == spec_w_f_segmap(),
{
    let mut v: Vec<u8> = Vec::new();
    v.push(95);
    v.push(115);
    v.push(101);
    v.push(103);
    v.push(109);
    v.push(97);
    v.push(112);
    proof {
        assert(v@ =~= spec_w_f_segmap());
    }
    v
}

/// The bytes of `_log2_segment_size`.
pub open spec fn spec_w_f_log2_segment_size() -> Seq<u8> {
    seq![95u8, 108u8, 111u8, 103u8, 50u8, 95u8, 115u8, 101u8, 103u8, 109u8, 101u8, 110u8, 116u8, 95u8, 115u8, 105u8, 122u8, 101u8]
}

fn w_f_log2_segment_size() -> (r: Vec<u8>)
    ensures
        r@ == spec_w_f_log2_segment_size(),
{
    let mut v: Vec<u8> = Vec::new();
    v.push(95);
    v.push(108);
    v.push(111);
    v.push(103);
    v.push(50);
    v.push(95);
    v.push(115);
    v.push(101);
    v.push(103);
    v.push(109);
    v.push(101);
    v.push(110);
    v.push(116);
    v.push(95);
    v.push(115);
    v.push(105);
    v.push(122);
    v.push(101);
    proof {
        assert(v@ =~= spec_w_f_log2_segment_size());
    }
    v
}

/// The bytes of `_low_boundary`.
pub open spec fn spec_w_f_low_boundary() -> Seq<u8> {
    seq![95u8, 108u8, 111u8, 119u8, 95u8, 98u8, 111u8, 117u8, 110u8, 100u8, 97u8, 114u8, 121u8]
}

fn w_f_low_boundary() -> (r: Vec<u8>)
    ensures
        r@ == spec_w_f_low_boundary(),
{
    let mut v: Vec<u8> = Vec::new();
    v.push(95);
    v.push(108);
    v.push(111);
    v.push(119);
    v.push(95);
    v.push(98);
    v.push(111);
    v.push(117);
    v.push(110);
    v.push(100);
    v.push(97);
    v.push(114);
    v.push(121);
    proof {
        assert(v@ =~= spec_w_f_low_boundary());
    }
    v
}

/// The bytes of `_high_boundary`.
pub open spec fn spec_w_f_high_boundary() -> Seq<u8> {
    seq![95u8, 104u8, 105u8, 103u8, 104u8, 95u8, 98u8, 111u8, 117u8, 110u8, 100u8, 97u8, 114u8, 121u8]
}

fn w_f_high_boundary() -> (r: Vec<u8>)
    ensures
        r@ == spec_w_f_high_boundary(),
{
    let mut v: Vec<u8> = Vec::new();
    v.push(95);
    v.push(104);
    v.push(105);
    v.push(103);
    v.push(104);
    v.push(95);
    v.push(98);
    v.push(111);
    v.push(117);
    v.push(110);
    v.push(100);
    v.push(97);
    v.push(114);
    v.push(121);
    proof {
        assert(v@ =~= spec_w_f_high_boundary());
    }
    v
}

/// The bytes of `_low`.
pub open spec fn spec_w_f_low() -> Seq<u8> {
    seq![95u8, 108u8, 111u8, 119u8]
}

fn w_f_low() -> (r: Vec<u8>)
    ensures
        r@ == spec_w_f_low(),
{
    let mut v: Vec<u8> = Vec::new();
    v.push(95);
    v.push(108);
    v.push(111);
    v.push(119);
    proof {
        assert(v@ =~= spec_w_f_low());
    }
    v
}

/// The bytes of `_high`.
pub open spec fn spec_w_f_high() -> Seq<u8> {
    seq![95u8, 104u8, 105u8, 103u8, 104u8]
}

fn w_f_high() -> (r: Vec<u8>)
    ensures
        r@ == spec_w_f_high(),
{
    let mut v: Vec<u8> = Vec::new();
    v.push(95);
    v.push(104);
    v.push(105);
    v.push(103);
    v.push(104);
    proof {
        assert(v@ =~= spec_w_f_high());
    }
    v
}

/// The bytes of `_data`.
pub open spec fn spec_w_f_data() -> Seq<u8> {
    seq![95u8, 100u8, 97u8, 116u8, 97u8]
}

fn w_f_data() -> (r: Vec<u8>)
    ensures
        r@ == spec_w_f_data(),
{
    let mut v: Vec<u8> = Vec::new();
    v.push(95);
    v.push(100);
    v.push(97);
    v.push(116);
    v.push(97);
    proof {
        assert(v@ =~= spec_w_f_data());
    }
    v
}

/// The bytes of `name`.
pub open spec fn spec_w_f_bare_name() -> Seq<u8> {
    seq![110u8, 97u8, 109u8, 101u8]
}

fn w_f_bare_name() -> (r: Vec<u8>)
    ensures
        r@ == spec_w_f_bare_name(),
{
    let mut v: Vec<u8> = Vec::new();
    v.push(110);
    v.push(97);
    v.push(109);
    v.push(101);
    proof {
        assert(v@ =~= spec_w_f_bare_name());
    }
    v
}

/// The bytes of `addr`.
pub open spec fn spec_w_f_bare_addr() -> Seq<u8> {
    seq![97u8, 100u8, 100u8, 114u8]
}

fn w_f_bare_addr() -> (r: Vec<u8>)
    ensures
        r@ == spec_w_f_bare_addr(),
{
    let mut v: Vec<u8> = Vec::new();
    v.push(97);
    v.push(100);
    v.push(100);
    v.push(114);
    proof {
        assert(v@ =~= spec_w_f_bare_addr());
    }
    v
}

/// The bytes of `flags`.
pub open spec fn spec_w_f_flags() -> Seq<u8> {
    seq![102u8, 108u8, 97u8, 103u8, 115u8]
}

fn w_f_flags() -> (r: Vec<u8>)
    ensures
        r@ == spec_w_f_flags(),
{
    let mut v: Vec<u8> = Vec::new();
    v.push(102);
    v.push(108);
    v.push(97);
    v.push(103);
    v.push(115);
    proof {
        assert(v@ =~= spec_w_f_flags());
    }
    v
}

/// The bytes of `numFlags`.
pub open spec fn spec_w_f_num_flags() -> Seq<u8> {
    seq![110u8, 117u8, 109u8, 70u8, 108u8, 97u8, 103u8, 115u8]
}

fn w_f_num_flags() -> (r: Vec<u8>)
    ensures
        r@ == spec_w_f_num_flags(),
{
    let mut v: Vec<u8> = Vec::new();
    v.push(110);
    v.push(117);
    v.push(109);
    v.push(70);
    v.push(108);
    v.push(97);
    v.push(103);
    v.push(115);
    proof {
        assert(v@ =~= spec_w_f_num_flags());
    }
    v
}

/// The bytes of `_addr`.
pub open spec fn spec_w_f_addr() -> Seq<u8> {
    seq![95u8, 97u8, 100u8, 100u8, 114u8]
}

fn w_f_addr() -> (r: Vec<u8>)
    ensures
        r@ == spec_w_f_addr(),
{
    let mut v: Vec<u8> = Vec::new();
    v.push(95);
    v.push(97);
    v.push(100);
    v.push(100);
    v.push(114);
    proof {
        assert(v@ =~= spec_w_f_addr());
    }
    v
}

/// What one table entry changes: the offset or address slot of the type
/// and field it names, or nothing for an unknown pair.
pub open spec fn spec_apply_entry(s: VMStruct, t: Seq<u8>, f: Seq<u8>, off: i32, addr: u64) -> VMStruct {
    if t == spec_w_klass() {
        if f == spec_w_f_name() { VMStruct { klass_name_offset: off, ..s } } else { s }
    } else if t == spec_w_symbol() {
        if f == spec_w_f_length() { VMStruct { symbol_length_offset: off, ..s } }
        else if f == spec_w_f_length_and_refcount() { VMStruct { symbol_length_and_refcount_offset: off, ..s } }
        else if f == spec_w_f_body() { VMStruct { symbol_body_offset: off, ..s } }
        else { s }
    } else if t == spec_w_compiled_method() || t == spec_w_nmethod_t() {
        if f == spec_w_f_method() { VMStruct { nmethod_method_offset: off, ..s } }
        else if f == spec_w_f_verified_entry_point() { VMStruct { nmethod_entry_offset: off, ..s } }
        else if f == spec_w_f_state() { VMStruct { nmethod_state_offset: off, ..s } }
        else if f == spec_w_f_comp_level() { VMStruct { nmethod_level_offset: off, ..s } }
        else { s }
    } else if t == spec_w_method_t() {
        if f == spec_w_f_const_method() { VMStruct { method_constmethod_offset: off, ..s } }
        else if f == spec_w_f_code() { VMStruct { method_code_offset: off, ..s } }
        else { s }
    } else if t == spec_w_const_method() {
        if f == spec_w_f_constants() { VMStruct { constmethod_constants_offset: off, ..s } }
        else if f == spec_w_f_method_idnum() { VMStruct { constmethod_idnum_offset: off, ..s } }
        else { s }
    } else if t == spec_w_constant_pool() {
        if f == spec_w_f_pool_holder() { VMStruct { pool_holder_offset: off, ..s } } else { s }
    } else if t == spec_w_instance_klass() {
        if f == spec_w_f_class_loader_data() { VMStruct { class_loader_data_offset: off, ..s } }
        else if f == spec_w_f_methods() { VMStruct { methods_offset: off, ..s } }
        else if f == spec_w_f_methods_jmethod_ids() { VMStruct { jmethod_ids_offset: off, ..s } }
        else { s }
    } else if t == spec_w_class_loader_data() {
        if f == spec_w_f_next() { VMStruct { class_loader_data_next_offset: off, ..s } } else { s }
    } else if t == spec_w_java_lang_class() {
        if f == spec_w_f_klass_offset() { VMStruct { klass_offset_addr: addr, ..s } } else { s }
    } else if t == spec_w_java_thread() {
        if f == spec_w_f_osthread() { VMStruct { thread_osthread_offset: off, ..s } }
        else if f == spec_w_f_anchor() { VMStruct { thread_anchor_offset: off, ..s } }
        else if f == spec_w_f_thread_state() { VMStruct { thread_state_offset: off, ..s } }
        else { s }
    } else if t == spec_w_os_thread() {
        if f == spec_w_f_thread_id() { VMStruct { osthread_id_offset: off, ..s } } else { s }
    } else if t == spec_w_java_frame_anchor() {
        if f == spec_w_f_last_java_sp() { VMStruct { anchor_sp_offset: off, ..s } }
        else if f == spec_w_f_last_java_pc() { VMStruct { anchor_pc_offset: off, ..s } }
        else { s }
    } else if t == spec_w_code_blob() {
        if f == spec_w_f_frame_size() { VMStruct { frame_size_offset: off, ..s } }
        else if f == spec_w_f_frame_complete_offset() { VMStruct { frame_complete_offset: off, ..s } }
        else if f == spec_w_f_name() { VMStruct { nmethod_name_offset: off, ..s } }
        else { s }
    } else if t == spec_w_code_cache_t() {
        if f == spec_w_f_heap() || f == spec_w_f_heaps() { VMStruct { code_heap_addr: addr, ..s } }
        else if f == spec_w_f_low_bound() { VMStruct { code_heap_low_addr: addr, ..s } }
        else if f == spec_w_f_high_bound() { VMStruct { code_heap_high_addr: addr, ..s } }
        else { s }
    } else if t == spec_w_code_heap_t() {
        if f == spec_w_f_memory() { VMStruct { code_heap_memory_offset: off, ..s } }
        else if f == spec_w_f_segmap() { VMStruct { code_heap_segmap_offset: off, ..s } }
        else if f == spec_w_f_log2_segment_size() { VMStruct { code_heap_segment_shift: off, ..s } }
        else { s }
    } else if t == spec_w_virtual_space() {
        if f == spec_w_f_low_boundary() { VMStruct { vs_low_bound_offset: off, ..s } }
        else if f == spec_w_f_high_boundary() { VMStruct { vs_high_bound_offset: off, ..s } }
        else if f == spec_w_f_low() { VMStruct { vs_low_offset: off, ..s } }
        else if f == spec_w_f_high() { VMStruct { vs_high_offset: off, ..s } }
        else { s }
    } else if t == spec_w_growable_array_int() {
        if f == spec_w_f_data() { VMStruct { array_data_offset: off, ..s } } else { s }
    } else if t == spec_w_jvm_flag() || t == spec_w_flag_t() {
        if f == spec_w_f_name() || f == spec_w_f_bare_name() { VMStruct { flag_name_offset: off, ..s } }
        else if f == spec_w_f_addr() || f == spec_w_f_bare_addr() { VMStruct { flag_addr_offset: off, ..s } }
        else if f == spec_w_f_flags() { VMStruct { flags_addr: addr, ..s } }
        else if f == spec_w_f_num_flags() { VMStruct { flag_count: addr as i32, ..s } }
        else { s }
    } else if t == spec_w_perm_gen() {
        VMStruct { has_perm: true, ..s }
    } else {
        s
    }
}

/// The table folded left to right over a starting record.
pub open spec fn spec_fold_entries(init: VMStruct, entries: Seq<VmStructEntry>) -> VMStruct
    decreases entries.len(),
{
    if entries.len() == 0 {
        init
    } else {
        {
            let e = entries.last();
            spec_apply_entry(
                spec_fold_entries(init, entries.drop_last()),
                e.struct_name@,
                e.field_name@,
                e.offset,
                e.address,
            )
        }
    }
}

/// The record every resolver starts from.
pub open spec fn spec_vmstruct_empty() -> VMStruct {
    VMStruct {
        klass_name_offset: -1i32,
        symbol_length_offset: -1i32,
        symbol_length_and_refcount_offset: -1i32,
        symbol_body_offset: -1i32,
        nmethod_name_offset: -1i32,
        nmethod_method_offset: -1i32,
        nmethod_entry_offset: -1i32,
        nmethod_state_offset: -1i32,
        nmethod_level_offset: -1i32,
        method_constmethod_offset: -1i32,
        method_code_offset: -1i32,
        constmethod_constants_offset: -1i32,
        constmethod_idnum_offset: -1i32,
        pool_holder_offset: -1i32,
        class_loader_data_offset: -1i32,
        methods_offset: -1i32,
        jmethod_ids_offset: -1i32,
        class_loader_data_next_offset: -1i32,
        klass_offset_addr: 0,
        thread_osthread_offset: -1i32,
        thread_env_offset: -1i32,
        thread_anchor_offset: -1i32,
        thread_state_offset: -1i32,
        osthread_id_offset: -1i32,
        anchor_sp_offset: -1i32,
        anchor_pc_offset: -1i32,
        frame_size_offset: -1i32,
        frame_complete_offset: -1i32,
        code_heap_addr: 0,
        code_heap_low_addr: 0,
        code_heap_high_addr: 0,
        code_heap_low: 0,
        code_heap_high: 0,
        code_heap_memory_offset: -1i32,
        code_heap_segmap_offset: -1i32,
        code_heap_segment_shift: -1i32,
        vs_low_bound_offset: -1i32,
        code_heap0: 0,
        code_heap1: 0,
        code_heap2: 0,
        vs_high_bound_offset: -1i32,
        vs_low_offset: -1i32,
        vs_high_offset: -1i32,
        array_data_offset: -1i32,
        flag_name_offset: -1i32,
        flag_addr_offset: -1i32,
        flags_addr: 0,
        flag_count: -1i32,
        has_perm: false,
        klass: 0,
        tid: 0,
        eetop: 0,
        has_class_names: false,
        has_method_structs: false,
        has_native_thread_id: false,
    }
}

impl VMStruct {
    /// The empty record: every offset absent, every address zero, every
    /// capability off.
    pub fn new() -> (r: Self)
        ensures
            r == spec_vmstruct_empty(),
    {
        VMStruct {
            klass_name_offset: -1,
            symbol_length_offset: -1,
            symbol_length_and_refcount_offset: -1,
            symbol_body_offset: -1,
            nmethod_name_offset: -1,
            nmethod_method_offset: -1,
            nmethod_entry_offset: -1,
            nmethod_state_offset: -1,
            nmethod_level_offset: -1,
            method_constmethod_offset: -1,
            method_code_offset: -1,
            constmethod_constants_offset: -1,
            constmethod_idnum_offset: -1,
            pool_holder_offset: -1,
            class_loader_data_offset: -1,
            methods_offset: -1,
            jmethod_ids_offset: -1,
            class_loader_data_next_offset: -1,
            klass_offset_addr: 0,
            thread_osthread_offset: -1,
            thread_env_offset: -1,
            thread_anchor_offset: -1,
            thread_state_offset: -1,
            osthread_id_offset: -1,
            anchor_sp_offset: -1,
            anchor_pc_offset: -1,
            frame_size_offset: -1,
            frame_complete_offset: -1,
            code_heap_addr: 0,
            code_heap_low_addr: 0,
            code_heap_high_addr: 0,
            code_heap_low: 0,
            code_heap_high: 0,
            code_heap_memory_offset: -1,
            code_heap_segmap_offset: -1,
            code_heap_segment_shift: -1,
            vs_low_bound_offset: -1,
            code_heap0: 0,
            code_heap1: 0,
            code_heap2: 0,
            vs_high_bound_offset: -1,
            vs_low_offset: -1,
            vs_high_offset: -1,
            array_data_offset: -1,
            flag_name_offset: -1,
            flag_addr_offset: -1,
            flags_addr: 0,
            flag_count: -1,
            has_perm: false,
            klass: 0,
            tid: 0,
            eetop: 0,
            has_class_names: false,
            has_method_structs: false,
            has_native_thread_id: false,
        }
    }

    /// Apply one table entry.
    pub fn apply_entry(&mut self, e: &VmStructEntry)
        ensures
            *final(self) == spec_apply_entry(
                *old(self),
                e.struct_name@,
                e.field_name@,
                e.offset,
                e.address,
            ),
    {
        let t = e.struct_name.as_slice();
        let f = e.field_name.as_slice();
        let off = e.offset;
        let addr = e.address;
        if bytes_eq(t, w_klass().as_slice()) {
            if bytes_eq(f, w_f_name().as_slice()) {
                self.klass_name_offset = off;
            }
        } else if bytes_eq(t, w_symbol().as_slice()) {
            if bytes_eq(f, w_f_length().as_slice()) {
                self.symbol_length_offset = off;
            } else if bytes_eq(f, w_f_length_and_refcount().as_slice()) {
                self.symbol_length_and_refcount_offset = off;
            } else if bytes_eq(f, w_f_body().as_slice()) {
                self.symbol_body_offset = off;
            }
        } else if bytes_eq(t, w_compiled_method().as_slice()) || bytes_eq(
            t,
            w_nmethod_t().as_slice(),
        ) {
            if bytes_eq(f, w_f_method().as_slice()) {
                self.nmethod_method_offset = off;
            } else if bytes_eq(f, w_f_verified_entry_point().as_slice()) {
                self.nmethod_entry_offset = off;
            } else if bytes_eq(f, w_f_state().as_slice()) {
                self.nmethod_state_offset = off;
            } else if bytes_eq(f, w_f_comp_level().as_slice()) {
                self.nmethod_level_offset = off;
            }
        } else if bytes_eq(t, w_method_t().as_slice()) {
            if bytes_eq(f, w_f_const_method().as_slice()) {
                self.method_constmethod_offset = off;
            } else if bytes_eq(f, w_f_code().as_slice()) {
                self.method_code_offset = off;
            }
        } else if bytes_eq(t, w_const_method().as_slice()) {
            if bytes_eq(f, w_f_constants().as_slice()) {
                self.constmethod_constants_offset = off;
            } else if bytes_eq(f, w_f_method_idnum().as_slice()) {
                self.constmethod_idnum_offset = off;
            }
        } else if bytes_eq(t, w_constant_pool().as_slice()) {
            if bytes_eq(f, w_f_pool_holder().as_slice()) {
                self.pool_holder_offset = off;
            }
        } else if bytes_eq(t, w_instance_klass().as_slice()) {
            if bytes_eq(f, w_f_class_loader_data().as_slice()) {
                self.class_loader_data_offset = off;
            } else if bytes_eq(f, w_f_methods().as_slice()) {
                self.methods_offset = off;
            } else if bytes_eq(f, w_f_methods_jmethod_ids().as_slice()) {
                self.jmethod_ids_offset = off;
            }
        } else if bytes_eq(t, w_class_loader_data().as_slice()) {
            if bytes_eq(f, w_f_next().as_slice()) {
                self.class_loader_data_next_offset = off;
            }
        } else if bytes_eq(t, w_java_lang_class().as_slice()) {
            if bytes_eq(f, w_f_klass_offset().as_slice()) {
                self.klass_offset_addr = addr;
            }
        } else if bytes_eq(t, w_java_thread().as_slice()) {
            if bytes_eq(f, w_f_osthread().as_slice()) {
                self.thread_osthread_offset = off;
            } else if bytes_eq(f, w_f_anchor().as_slice()) {
                self.thread_anchor_offset = off;
            } else if bytes_eq(f, w_f_thread_state().as_slice()) {
                self.thread_state_offset = off;
            }
        } else if bytes_eq(t, w_os_thread().as_slice()) {
            if bytes_eq(f, w_f_thread_id().as_slice()) {
                self.osthread_id_offset = off;
            }
        } else if bytes_eq(t, w_java_frame_anchor().as_slice()) {
            if bytes_eq(f, w_f_last_java_sp().as_slice()) {
                self.anchor_sp_offset = off;
            } else if bytes_eq(f, w_f_last_java_pc().as_slice()) {
                self.anchor_pc_offset = off;
            }
        } else if bytes_eq(t, w_code_blob().as_slice()) {
            if bytes_eq(f, w_f_frame_size().as_slice()) {
                self.frame_size_offset = off;
            } else if bytes_eq(f, w_f_frame_complete_offset().as_slice()) {
                self.frame_complete_offset = off;
            } else if bytes_eq(f, w_f_name().as_slice()) {
                self.nmethod_name_offset = off;
            }
        } else if bytes_eq(t, w_code_cache_t().as_slice()) {
            if bytes_eq(f, w_f_heap().as_slice()) || bytes_eq(f, w_f_heaps().as_slice()) {
                self.code_heap_addr = addr;
            } else if bytes_eq(f, w_f_low_bound().as_slice()) {
                self.code_heap_low_addr = addr;
            } else if bytes_eq(f, w_f_high_bound().as_slice()) {
                self.code_heap_high_addr = addr;
            }
        } else if bytes_eq(t, w_code_heap_t().as_slice()) {
            if bytes_eq(f, w_f_memory().as_slice()) {
                self.code_heap_memory_offset = off;
            } else if bytes_eq(f, w_f_segmap().as_slice()) {
                self.code_heap_segmap_offset = off;
            } else if bytes_eq(f, w_f_log2_segment_size().as_slice()) {
                self.code_heap_segment_shift = off;
            }
        } else if bytes_eq(t, w_virtual_space().as_slice()) {
            if bytes_eq(f, w_f_low_boundary().as_slice()) {
                self.vs_low_bound_offset = off;
            } else if bytes_eq(f, w_f_high_boundary().as_slice()) {
                self.vs_high_bound_offset = off;
            } else if bytes_eq(f, w_f_low().as_slice()) {
                self.vs_low_offset = off;
            } else if bytes_eq(f, w_f_high().as_slice()) {
                self.vs_high_offset = off;
            }
        } else if bytes_eq(t, w_growable_array_int().as_slice()) {
            if bytes_eq(f, w_f_data().as_slice()) {
                self.array_data_offset = off;
            }
        } else if bytes_eq(t, w_jvm_flag().as_slice()) || bytes_eq(t, w_flag_t().as_slice()) {
            if bytes_eq(f, w_f_name().as_slice()) || bytes_eq(f, w_f_bare_name().as_slice()) {
                self.flag_name_offset = off;
            } else if bytes_eq(f, w_f_addr().as_slice()) || bytes_eq(
                f,
                w_f_bare_addr().as_slice(),
            ) {
                self.flag_addr_offset = off;
            } else if bytes_eq(f, w_f_flags().as_slice()) {
                self.flags_addr = addr;
            } else if bytes_eq(f, w_f_num_flags().as_slice()) {
                self.flag_count = #[verifier::truncate] (addr as i32);
            }
        } else if bytes_eq(t, w_perm_gen().as_slice()) {
            self.has_perm = true;
        }
    }

    /// Walk the whole exported table, the last entry naming each pair
    /// winning.
    pub fn initial_offset(&mut self, entries: &Vec<VmStructEntry>)
        ensures
            *final(self) == spec_fold_entries(*old(self), entries@),
    {
        let mut i: usize = 0;
        proof {
            assert(entries@.take(0) =~= Seq::<VmStructEntry>::empty());
        }
        while i < entries.len()
            invariant
                0 <= i <= entries@.len(),
                *self == spec_fold_entries(*old(self), entries@.take(i as int)),
            decreases entries@.len() - i,
        {
            self.apply_entry(&entries[i]);
            proof {
                assert(entries@.take(i + 1).drop_last() =~= entries@.take(i as int));
                assert(entries@.take(i + 1).last() == entries@[i as int]);
            }
            i = i + 1;
        }
        proof {
            assert(entries@.take(entries@.len() as int) =~= entries@);
        }
    }

    /// Derive the capability flags and cache the code-heap state from the
    /// dereferenced values.
    pub fn resolve_offset(&mut self, klass_offset_value: i32, d: &CodeHeapDeref)
        ensures
            *final(self) == spec_resolve(*old(self), klass_offset_value, *d),
    {
        if self.klass_offset_addr != 0 {
            self.klass = #[verifier::truncate] ((((klass_offset_value as i64) << 2i64) | 2)
                as u64);
        }
        self.has_class_names = self.klass_name_offset >= 0 && (self.symbol_length_offset >= 0
            || self.symbol_length_and_refcount_offset >= 0) && self.symbol_body_offset >= 0
            && self.klass != 0;
        self.has_method_structs = self.jmethod_ids_offset >= 0 && self.nmethod_method_offset >= 0
            && self.nmethod_entry_offset >= 0 && self.nmethod_state_offset >= 0
            && self.method_constmethod_offset >= 0 && self.method_code_offset >= 0
            && self.constmethod_constants_offset >= 0 && self.constmethod_idnum_offset >= 0
            && self.pool_holder_offset >= 0;
        if self.code_heap_addr != 0 && self.code_heap_low_addr != 0 && self.code_heap_high_addr
            != 0 {
            if d.count <= 3 && self.array_data_offset >= 0 {
                self.code_heap0 = d.heap0;
                self.code_heap1 = d.heap1;
                self.code_heap2 = d.heap2;
            }
            self.code_heap_low = d.low;
            self.code_heap_high = d.high;
        }
        if self.code_heap0 != 0 && self.code_heap_segment_shift >= 0 {
            self.code_heap_segment_shift = d.segment_shift_value;
        }
        if self.code_heap_memory_offset < 0 || self.code_heap_segmap_offset < 0
            || self.code_heap_segment_shift < 0 || self.code_heap_segment_shift > 16 {
            self.code_heap0 = 0;
            self.code_heap1 = 0;
            self.code_heap2 = 0;
        }
    }

    /// Record what resolving the current thread found: the offset from a
    /// thread's environment handle back to its internal record, and
    /// whether the native thread id can be read at all.
    pub fn set_thread_resolution(&mut self, thread_env_offset: i32)
        ensures
            final(self).thread_env_offset == thread_env_offset,
            final(self).has_native_thread_id == (old(self).thread_osthread_offset > 0 && old(
                self,
            ).osthread_id_offset > 0),
            final(self).eetop == old(self).eetop,
            final(self).tid == old(self).tid,
            final(self).thread_osthread_offset == old(self).thread_osthread_offset,
            final(self).osthread_id_offset == old(self).osthread_id_offset,
    {
        self.thread_env_offset = thread_env_offset;
        self.has_native_thread_id = self.thread_osthread_offset > 0 && self.osthread_id_offset
            > 0;
    }

    pub fn eetop(&self) -> (r: u64)
        ensures
            r == self.eetop,
    {
        self.eetop
    }

    pub fn tid(&self) -> (r: u64)
        ensures
            r == self.tid,
    {
        self.tid
    }

    pub fn thread_osthread_offset(&self) -> (r: i32)
        ensures
            r == self.thread_osthread_offset,
    {
        self.thread_osthread_offset
    }

    pub fn osthread_id_offset(&self) -> (r: i32)
        ensures
            r == self.osthread_id_offset,
    {
        self.osthread_id_offset
    }

    pub fn has_method_structs(&self) -> (r: bool)
        ensures
            r == self.has_method_structs,
    {
        self.has_method_structs
    }

    pub fn has_native_thread_id(&self) -> (r: bool)
        ensures
            r == self.has_native_thread_id,
    {
        self.has_native_thread_id
    }

    pub fn thread_env_offset(&self) -> (r: i32)
        ensures
            r == self.thread_env_offset,
    {
        self.thread_env_offset
    }

    pub fn nmethod_name_offset(&self) -> (r: i32)
        ensures
            r == self.nmethod_name_offset,
    {
        self.nmethod_name_offset
    }

    /// The cached code-heap span.
    pub fn code_heap(&self) -> (r: CodeHeap)
        ensures
            r.low == self.code_heap_low,
            r.high == self.code_heap_high,
    {
        CodeHeap { low: self.code_heap_low, high: self.code_heap_high }
    }

    /// Widen the cached code-heap span to cover `[start, end)`, as the
    /// runtime reports newly generated code.
    pub fn update_bounds(&mut self, start: u64, end: u64)
        ensures
            final(self).code_heap_low == if start < old(self).code_heap_low || old(
                self,
            ).code_heap_low == 0 {
                start
            } else {
                old(self).code_heap_low
            },
            final(self).code_heap_high == if end > old(self).code_heap_high {
                end
            } else {
                old(self).code_heap_high
            },
    {
        if start < self.code_heap_low || self.code_heap_low == 0 {
            self.code_heap_low = start;
        }
        if end > self.code_heap_high {
            self.code_heap_high = end;
        }
    }
}

/// The values the resolver reads out of runtime memory once the offsets
/// stand: the code-heap array's length and first three entries, the cached
/// heap bounds, and the value behind the first heap's segment-shift slot.
pub struct CodeHeapDeref {
    pub count: i32,
    pub heap0: u64,
    pub heap1: u64,
    pub heap2: u64,
    pub low: u64,
    pub high: u64,
    pub segment_shift_value: i32,
}

/// What resolving makes of a record, given the dereferenced values: the
/// synthetic klass field id, the derived capability flags, the cached heap
/// pointers and bounds, the segment shift replaced by its dereferenced
/// value, and the heaps dropped again where the heap offsets are unusable.
pub open spec fn spec_resolve(s: VMStruct, klass_offset_value: i32, d: CodeHeapDeref) -> VMStruct {
    {
        let klass = if s.klass_offset_addr != 0 {
            (((klass_offset_value as i64) << 2i64) | 2) as u64
        } else {
            s.klass
        };
        let has_class_names = s.klass_name_offset >= 0 && (s.symbol_length_offset >= 0
            || s.symbol_length_and_refcount_offset >= 0) && s.symbol_body_offset >= 0 && klass
            != 0;
        let has_method_structs = s.jmethod_ids_offset >= 0 && s.nmethod_method_offset >= 0
            && s.nmethod_entry_offset >= 0 && s.nmethod_state_offset >= 0
            && s.method_constmethod_offset >= 0 && s.method_code_offset >= 0
            && s.constmethod_constants_offset >= 0 && s.constmethod_idnum_offset >= 0
            && s.pool_holder_offset >= 0;
        let heaps_on = s.code_heap_addr != 0 && s.code_heap_low_addr != 0 && s.code_heap_high_addr
            != 0;
        let fill = heaps_on && d.count <= 3 && s.array_data_offset >= 0;
        let h0 = if fill {
            d.heap0
        } else {
            s.code_heap0
        };
        let h1 = if fill {
            d.heap1
        } else {
            s.code_heap1
        };
        let h2 = if fill {
            d.heap2
        } else {
            s.code_heap2
        };
        let low = if heaps_on {
            d.low
        } else {
            s.code_heap_low
        };
        let high = if heaps_on {
            d.high
        } else {
            s.code_heap_high
        };
        let shift = if h0 != 0 && s.code_heap_segment_shift >= 0 {
            d.segment_shift_value
        } else {
            s.code_heap_segment_shift
        };
        let drop_heaps = s.code_heap_memory_offset < 0 || s.code_heap_segmap_offset < 0 || shift
            < 0 || shift > 16;
        VMStruct {
            klass,
            has_class_names,
            has_method_structs,
            code_heap0: if drop_heaps {
                0
            } else {
                h0
            },
            code_heap1: if drop_heaps {
                0
            } else {
                h1
            },
            code_heap2: if drop_heaps {
                0
            } else {
                h2
            },
            code_heap_low: low,
            code_heap_high: high,
            code_heap_segment_shift: shift,
            ..s
        }
    }
}

/// A cached code-heap span for the fast sample-time containment test.
pub struct CodeHeap {
    pub low: u64,
    pub high: u64,
}

impl CodeHeap {
    pub fn new(low: u64, high: u64) -> (r: Self)
        ensures
            r.low == low && r.high == high,
    {
        CodeHeap { low, high }
    }

    /// The fast test for "this program counter is runtime-generated code".
    pub fn code_contains(&self, pc: u64) -> (r: bool)
        ensures
            r == (self.low <= pc < self.high),
    {
        self.low <= pc && pc < self.high
    }
}

/// Walk a code heap's segment map back to the block that covers the given
/// segment: a free segment (`0xff`) gives nothing; a positive entry names
/// how many segments back the block begins; a step past the map's start
/// gives nothing.
pub open spec fn spec_block_walk(segmap: Seq<u8>, idx: int) -> Option<int>
    decreases idx,
{
    if idx < 0 || idx >= segmap.len() {
        None
    } else {
        {
            let seg = segmap[idx];
            if 1 <= seg <= 127 {
                if seg as int > idx {
                    None
                } else {
                    spec_block_walk(segmap, idx - seg)
                }
            } else {
                Some(idx)
            }
        }
    }
}

/// The block-start segment covering segment `idx0`, nothing for a free
/// segment.
pub open spec fn spec_find_block(segmap: Seq<u8>, idx0: int) -> Option<int> {
    if 0 <= idx0 < segmap.len() && segmap[idx0] != 255 {
        spec_block_walk(segmap, idx0)
    } else {
        None
    }
}

/// Find the block-start segment covering segment `idx0` of a heap's
/// segment map.
pub fn find_block_index(segmap: &[u8], idx0: usize) -> (r: Option<usize>)
    ensures
        match r {
            Some(i) => spec_find_block(segmap@, idx0 as int) == Some(i as int) && i <= idx0,
            None => spec_find_block(segmap@, idx0 as int) is None,
        },
{
    if idx0 >= segmap.len() {
        return None;
    }
    if segmap[idx0] == 255 {
        return None;
    }
    let mut idx = idx0;
    loop
        invariant
            0 <= idx <= idx0 < segmap@.len(),
            spec_find_block(segmap@, idx0 as int) == spec_block_walk(segmap@, idx as int),
        decreases idx,
    {
        let seg = segmap[idx];
        if 1 <= seg && seg <= 127 {
            if seg as usize > idx {
                return None;
            }
            idx = idx - seg as usize;
        } else {
            return Some(idx);
        }
    }
}

/// A runtime-internal descriptor of a compiled method, addressed inside
/// the code heap.
pub struct NMethod {
    pub inner: u64,
    pub nmethod_name_offset: i32,
}

impl NMethod {
    pub fn new(inner: u64, nmethod_name_offset: i32) -> (r: Self)
        ensures
            r.inner == inner,
            r.nmethod_name_offset == nmethod_name_offset,
    {
        NMethod { inner, nmethod_name_offset }
    }

    /// The address `pos` bytes into the descriptor, wrapping.
    pub fn at(&self, pos: i64) -> (r: u64)
        ensures
            r == vstd::wrapping::u64_specs::wrapping_add_signed(self.inner, pos),
    {
        self.inner.wrapping_add_signed(pos)
    }
}

/// A runtime-internal thread, located by the managed `Thread` object's
/// `eetop` field.
pub struct VMThread {
    pub inner: u64,
    pub osthread_id_offset: i32,
    pub thread_osthread_offset: i32,
}

impl VMThread {
    /// The thread behind a nonzero `eetop` value. A zero `eetop` names no
    /// live runtime thread — it would be a null handle whose fields could
    /// never be read — so it deliberately yields nothing here rather than
    /// a handle that must not be touched.
    pub fn from_eetop(eetop_value: u64, osthread_id_offset: i32, thread_osthread_offset: i32) -> (r:
        Option<Self>)
        ensures
            r is Some <==> eetop_value != 0,
            r matches Some(t) ==> t.inner == eetop_value && t.osthread_id_offset
                == osthread_id_offset && t.thread_osthread_offset == thread_osthread_offset,
    {
        if eetop_value == 0 {
            None
        } else {
            Some(VMThread { inner: eetop_value, osthread_id_offset, thread_osthread_offset })
        }
    }

    pub fn inner(&self) -> (r: u64)
        ensures
            r == self.inner,
    {
        self.inner
    }
}


/// One code heap's dereferenced state: its memory span and its segment
/// map's bytes.
pub struct HeapView {
    pub start: u64,
    pub end: u64,
    pub segmap: Vec<u8>,
}

/// The first heap whose memory span contains the address.
pub open spec fn spec_first_heap(heaps: Seq<HeapView>, pc: u64) -> Option<int>
    decreases heaps.len(),
{
    if heaps.len() == 0 {
        None
    } else if heaps[0].start <= pc < heaps[0].end {
        Some(0)
    } else {
        match spec_first_heap(heaps.drop_first(), pc) {
            Some(i) => Some(i + 1),
            None => None,
        }
    }
}

/// The compiled-method block covering a program counter: the first heap
/// containing it, the counter's segment index under the heap's segment
/// shift, the segment-map walk back to the block's start, and the block's
/// address in the heap. The caller reads the block's header behind that
/// address (used space, then the descriptor) out of runtime memory.
pub open spec fn spec_nmethod_block(heaps: Seq<HeapView>, segment_shift: u32, pc: u64) -> Option<
    u64,
> {
    match spec_first_heap(heaps, pc) {
        None => None,
        Some(h) => {
            let idx = ((pc - heaps[h].start) as u64) >> segment_shift;
            match spec_find_block(heaps[h].segmap@, idx as int) {
                None => None,
                Some(f) => Some(
                    vstd::wrapping::u64_specs::wrapping_add(
                        heaps[h].start,
                        (f as u64) << segment_shift,
                    ),
                ),
            }
        },
    }
}

/// A found first-heap index lies inside the list and its heap contains the
/// address.
proof fn lemma_first_heap_bounds(heaps: Seq<HeapView>, pc: u64)
    ensures
        match spec_first_heap(heaps, pc) {
            Some(k) => 0 <= k < heaps.len() && heaps[k].start <= pc < heaps[k].end,
            None => true,
        },
    decreases heaps.len(),
{
    if heaps.len() > 0 && !(heaps[0].start <= pc < heaps[0].end) {
        lemma_first_heap_bounds(heaps.drop_first(), pc);
        match spec_first_heap(heaps.drop_first(), pc) {
            Some(k) => {
                assert(heaps.drop_first()[k] == heaps[k + 1]);
            },
            None => {},
        }
    }
}

/// A containing heap at `i` with none before it is the first.
proof fn lemma_first_heap_is_first(heaps: Seq<HeapView>, pc: u64, i: int)
    requires
        0 <= i < heaps.len(),
        heaps[i].start <= pc < heaps[i].end,
        forall|j: int| 0 <= j < i ==> !((#[trigger] heaps[j]).start <= pc < heaps[j].end),
    ensures
        spec_first_heap(heaps, pc) == Some(i),
    decreases i,
{
    if i > 0 {
        assert forall|j: int|
            0 <= j < i - 1 implies !((#[trigger] heaps.drop_first()[j]).start <= pc
            < heaps.drop_first()[j].end) by {
            assert(heaps.drop_first()[j] == heaps[j + 1]);
        }
        assert(heaps.drop_first()[i - 1] == heaps[i]);
        lemma_first_heap_is_first(heaps.drop_first(), pc, i - 1);
    }
}

/// While no heap up to `i` contains the address, the first lies past `i`.
proof fn lemma_first_heap_is_first_none(heaps: Seq<HeapView>, pc: u64, i: int)
    requires
        0 <= i < heaps.len(),
        !(heaps[i].start <= pc < heaps[i].end),
        forall|j: int| 0 <= j < i ==> !((#[trigger] heaps[j]).start <= pc < heaps[j].end),
    ensures
        match spec_first_heap(heaps, pc) {
            Some(k) => k > i,
            None => true,
        },
    decreases i,
{
    if i > 0 {
        assert forall|j: int|
            0 <= j < i - 1 implies !((#[trigger] heaps.drop_first()[j]).start <= pc
            < heaps.drop_first()[j].end) by {
            assert(heaps.drop_first()[j] == heaps[j + 1]);
        }
        assert(heaps.drop_first()[i - 1] == heaps[i]);
        lemma_first_heap_is_first_none(heaps.drop_first(), pc, i - 1);
    }
    lemma_first_heap_bounds(heaps.drop_first(), pc);
}

/// Find the compiled-method block covering a program counter: pick the
/// containing heap, walk its segment map, and return the block's address.
pub fn find_nmethod_block(heaps: &Vec<HeapView>, segment_shift: u32, pc: u64) -> (r: Option<u64>)
    requires
        segment_shift < 64,
    ensures
        r == spec_nmethod_block(heaps@, segment_shift, pc),
{
    let mut i: usize = 0;
    proof {
        lemma_first_heap_bounds(heaps@, pc);
    }
    while i < heaps.len()
        invariant
            0 <= i <= heaps@.len(),
            segment_shift < 64,
            forall|j: int| 0 <= j < i ==> !((#[trigger] heaps@[j]).start <= pc < heaps@[j].end),
            match spec_first_heap(heaps@, pc) {
                Some(k) => i <= k,
                None => true,
            },
        decreases heaps@.len() - i,
    {
        let h = &heaps[i];
        if h.start <= pc && pc < h.end {
            proof {
                lemma_first_heap_is_first(heaps@, pc, i as int);
            }
            let idx = (pc - h.start) >> segment_shift;
            if idx >= h.segmap.len() as u64 {
                proof {
                    assert(spec_find_block(h.segmap@, idx as int) is None);
                }
                return None;
            }
            match find_block_index(h.segmap.as_slice(), idx as usize) {
                None => {
                    return None;
                },
                Some(f) => {
                    return Some(h.start.wrapping_add((f as u64) << segment_shift));
                },
            }
        }
        proof {
            lemma_first_heap_is_first_none(heaps@, pc, i as int);
        }
        i = i + 1;
    }
    proof {
        match spec_first_heap(heaps@, pc) {
            Some(k) => {
                assert(false);
            },
            None => {},
        }
    }
    None
}


} // verus!
