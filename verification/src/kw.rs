use vstd::prelude::*;

verus! {

// The keys, section names and enumerated values of the two document
// schemas, as byte strings: a spec constant and a matching builder for each.

pub open spec fn kw_graphics_backend() -> Seq<u8> {
    seq![103u8, 114u8, 97u8, 112u8, 104u8, 105u8, 99u8, 115u8, 95u8, 98u8, 97u8, 99u8, 107u8, 101u8, 110u8, 100u8]
}

pub fn kwe_graphics_backend() -> (r: Vec<u8>)
    ensures
        r@ == kw_graphics_backend(),
{
    let r: Vec<u8> = vec![103u8, 114u8, 97u8, 112u8, 104u8, 105u8, 99u8, 115u8, 95u8, 98u8, 97u8, 99u8, 107u8, 101u8, 110u8, 100u8];
    proof {
        assert(r@ =~= kw_graphics_backend());
    }
    r
}

pub open spec fn kw_graphics_power_preference() -> Seq<u8> {
    seq![103u8, 114u8, 97u8, 112u8, 104u8, 105u8, 99u8, 115u8, 95u8, 112u8, 111u8, 119u8, 101u8, 114u8, 95u8, 112u8, 114u8, 101u8, 102u8, 101u8, 114u8, 101u8, 110u8, 99u8, 101u8]
}

pub fn kwe_graphics_power_preference() -> (r: Vec<u8>)
    ensures
        r@ == kw_graphics_power_preference(),
{
    let r: Vec<u8> = vec![103u8, 114u8, 97u8, 112u8, 104u8, 105u8, 99u8, 115u8, 95u8, 112u8, 111u8, 119u8, 101u8, 114u8, 95u8, 112u8, 114u8, 101u8, 102u8, 101u8, 114u8, 101u8, 110u8, 99u8, 101u8];
    proof {
        assert(r@ =~= kw_graphics_power_preference());
    }
    r
}

pub open spec fn kw_language() -> Seq<u8> {
    seq![108u8, 97u8, 110u8, 103u8, 117u8, 97u8, 103u8, 101u8]
}

pub fn kwe_language() -> (r: Vec<u8>)
    ensures
        r@ == kw_language(),
{
    let r: Vec<u8> = vec![108u8, 97u8, 110u8, 103u8, 117u8, 97u8, 103u8, 101u8];
    proof {
        assert(r@ =~= kw_language());
    }
    r
}

pub open spec fn kw_output_device() -> Seq<u8> {
    seq![111u8, 117u8, 116u8, 112u8, 117u8, 116u8, 95u8, 100u8, 101u8, 118u8, 105u8, 99u8, 101u8]
}

pub fn kwe_output_device() -> (r: Vec<u8>)
    ensures
        r@ == kw_output_device(),
{
    let r: Vec<u8> = vec![111u8, 117u8, 116u8, 112u8, 117u8, 116u8, 95u8, 100u8, 101u8, 118u8, 105u8, 99u8, 101u8];
    proof {
        assert(r@ =~= kw_output_device());
    }
    r
}

pub open spec fn kw_mute() -> Seq<u8> {
    seq![109u8, 117u8, 116u8, 101u8]
}

pub fn kwe_mute() -> (r: Vec<u8>)
    ensures
        r@ == kw_mute(),
{
    let r: Vec<u8> = vec![109u8, 117u8, 116u8, 101u8];
    proof {
        assert(r@ =~= kw_mute());
    }
    r
}

pub open spec fn kw_volume() -> Seq<u8> {
    seq![118u8, 111u8, 108u8, 117u8, 109u8, 101u8]
}

pub fn kwe_volume() -> (r: Vec<u8>)
    ensures
        r@ == kw_volume(),
{
    let r: Vec<u8> = vec![118u8, 111u8, 108u8, 117u8, 109u8, 101u8];
    proof {
        assert(r@ =~= kw_volume());
    }
    r
}

pub open spec fn kw_filename_pattern() -> Seq<u8> {
    seq![102u8, 105u8, 108u8, 101u8, 110u8, 97u8, 109u8, 101u8, 95u8, 112u8, 97u8, 116u8, 116u8, 101u8, 114u8, 110u8]
}

pub fn kwe_filename_pattern() -> (r: Vec<u8>)
    ensures
        r@ == kw_filename_pattern(),
{
    let r: Vec<u8> = vec![102u8, 105u8, 108u8, 101u8, 110u8, 97u8, 109u8, 101u8, 95u8, 112u8, 97u8, 116u8, 116u8, 101u8, 114u8, 110u8];
    proof {
        assert(r@ =~= kw_filename_pattern());
    }
    r
}

pub open spec fn kw_backend() -> Seq<u8> {
    seq![98u8, 97u8, 99u8, 107u8, 101u8, 110u8, 100u8]
}

pub fn kwe_backend() -> (r: Vec<u8>)
    ensures
        r@ == kw_backend(),
{
    let r: Vec<u8> = vec![98u8, 97u8, 99u8, 107u8, 101u8, 110u8, 100u8];
    proof {
        assert(r@ =~= kw_backend());
    }
    r
}

pub open spec fn kw_log() -> Seq<u8> {
    seq![108u8, 111u8, 103u8]
}

pub fn kwe_log() -> (r: Vec<u8>)
    ensures
        r@ == kw_log(),
{
    let r: Vec<u8> = vec![108u8, 111u8, 103u8];
    proof {
        assert(r@ =~= kw_log());
    }
    r
}

pub open spec fn kw_storage() -> Seq<u8> {
    seq![115u8, 116u8, 111u8, 114u8, 97u8, 103u8, 101u8]
}

pub fn kwe_storage() -> (r: Vec<u8>)
    ensures
        r@ == kw_storage(),
{
    let r: Vec<u8> = vec![115u8, 116u8, 111u8, 114u8, 97u8, 103u8, 101u8];
    proof {
        assert(r@ =~= kw_storage());
    }
    r
}

pub open spec fn kw_bookmark() -> Seq<u8> {
    seq![98u8, 111u8, 111u8, 107u8, 109u8, 97u8, 114u8, 107u8]
}

pub fn kwe_bookmark() -> (r: Vec<u8>)
    ensures
        r@ == kw_bookmark(),
{
    let r: Vec<u8> = vec![98u8, 111u8, 111u8, 107u8, 109u8, 97u8, 114u8, 107u8];
    proof {
        assert(r@ =~= kw_bookmark());
    }
    r
}

pub open spec fn kw_url() -> Seq<u8> {
    seq![117u8, 114u8, 108u8]
}

pub fn kwe_url() -> (r: Vec<u8>)
    ensures
        r@ == kw_url(),
{
    let r: Vec<u8> = vec![117u8, 114u8, 108u8];
    proof {
        assert(r@ =~= kw_url());
    }
    r
}

pub open spec fn kw_name() -> Seq<u8> {
    seq![110u8, 97u8, 109u8, 101u8]
}

pub fn kwe_name() -> (r: Vec<u8>)
    ensures
        r@ == kw_name(),
{
    let r: Vec<u8> = vec![110u8, 97u8, 109u8, 101u8];
    proof {
        assert(r@ =~= kw_name());
    }
    r
}

pub open spec fn kw_default() -> Seq<u8> {
    seq![100u8, 101u8, 102u8, 97u8, 117u8, 108u8, 116u8]
}

pub fn kwe_default() -> (r: Vec<u8>)
    ensures
        r@ == kw_default(),
{
    let r: Vec<u8> = vec![100u8, 101u8, 102u8, 97u8, 117u8, 108u8, 116u8];
    proof {
        assert(r@ =~= kw_default());
    }
    r
}

pub open spec fn kw_vulkan() -> Seq<u8> {
    seq![118u8, 117u8, 108u8, 107u8, 97u8, 110u8]
}

pub fn kwe_vulkan() -> (r: Vec<u8>)
    ensures
        r@ == kw_vulkan(),
{
    let r: Vec<u8> = vec![118u8, 117u8, 108u8, 107u8, 97u8, 110u8];
    proof {
        assert(r@ =~= kw_vulkan());
    }
    r
}

pub open spec fn kw_metal() -> Seq<u8> {
    seq![109u8, 101u8, 116u8, 97u8, 108u8]
}

pub fn kwe_metal() -> (r: Vec<u8>)
    ensures
        r@ == kw_metal(),
{
    let r: Vec<u8> = vec![109u8, 101u8, 116u8, 97u8, 108u8];
    proof {
        assert(r@ =~= kw_metal());
    }
    r
}

pub open spec fn kw_dx12() -> Seq<u8> {
    seq![100u8, 120u8, 49u8, 50u8]
}

pub fn kwe_dx12() -> (r: Vec<u8>)
    ensures
        r@ == kw_dx12(),
{
    let r: Vec<u8> = vec![100u8, 120u8, 49u8, 50u8];
    proof {
        assert(r@ =~= kw_dx12());
    }
    r
}

pub open spec fn kw_gl() -> Seq<u8> {
    seq![103u8, 108u8]
}

pub fn kwe_gl() -> (r: Vec<u8>)
    ensures
        r@ == kw_gl(),
{
    let r: Vec<u8> = vec![103u8, 108u8];
    proof {
        assert(r@ =~= kw_gl());
    }
    r
}

pub open spec fn kw_low() -> Seq<u8> {
    seq![108u8, 111u8, 119u8]
}

pub fn kwe_low() -> (r: Vec<u8>)
    ensures
        r@ == kw_low(),
{
    let r: Vec<u8> = vec![108u8, 111u8, 119u8];
    proof {
        assert(r@ =~= kw_low());
    }
    r
}

pub open spec fn kw_high() -> Seq<u8> {
    seq![104u8, 105u8, 103u8, 104u8]
}

pub fn kwe_high() -> (r: Vec<u8>)
    ensures
        r@ == kw_high(),
{
    let r: Vec<u8> = vec![104u8, 105u8, 103u8, 104u8];
    proof {
        assert(r@ =~= kw_high());
    }
    r
}

pub open spec fn kw_disk() -> Seq<u8> {
    seq![100u8, 105u8, 115u8, 107u8]
}

pub fn kwe_disk() -> (r: Vec<u8>)
    ensures
        r@ == kw_disk(),
{
    let r: Vec<u8> = vec![100u8, 105u8, 115u8, 107u8];
    proof {
        assert(r@ =~= kw_disk());
    }
    r
}

pub open spec fn kw_memory() -> Seq<u8> {
    seq![109u8, 101u8, 109u8, 111u8, 114u8, 121u8]
}

pub fn kwe_memory() -> (r: Vec<u8>)
    ensures
        r@ == kw_memory(),
{
    let r: Vec<u8> = vec![109u8, 101u8, 109u8, 111u8, 114u8, 121u8];
    proof {
        assert(r@ =~= kw_memory());
    }
    r
}

pub open spec fn kw_single_file() -> Seq<u8> {
    seq![115u8, 105u8, 110u8, 103u8, 108u8, 101u8, 95u8, 102u8, 105u8, 108u8, 101u8]
}

pub fn kwe_single_file() -> (r: Vec<u8>)
    ensures
        r@ == kw_single_file(),
{
    let r: Vec<u8> = vec![115u8, 105u8, 110u8, 103u8, 108u8, 101u8, 95u8, 102u8, 105u8, 108u8, 101u8];
    proof {
        assert(r@ =~= kw_single_file());
    }
    r
}

pub open spec fn kw_with_timestamp() -> Seq<u8> {
    seq![119u8, 105u8, 116u8, 104u8, 95u8, 116u8, 105u8, 109u8, 101u8, 115u8, 116u8, 97u8, 109u8, 112u8]
}

pub fn kwe_with_timestamp() -> (r: Vec<u8>)
    ensures
        r@ == kw_with_timestamp(),
{
    let r: Vec<u8> = vec![119u8, 105u8, 116u8, 104u8, 95u8, 116u8, 105u8, 109u8, 101u8, 115u8, 116u8, 97u8, 109u8, 112u8];
    proof {
        assert(r@ =~= kw_with_timestamp());
    }
    r
}

pub open spec fn kw_true() -> Seq<u8> {
    seq![116u8, 114u8, 117u8, 101u8]
}

pub fn kwe_true() -> (r: Vec<u8>)
    ensures
        r@ == kw_true(),
{
    let r: Vec<u8> = vec![116u8, 114u8, 117u8, 101u8];
    proof {
        assert(r@ =~= kw_true());
    }
    r
}

pub open spec fn kw_false() -> Seq<u8> {
    seq![102u8, 97u8, 108u8, 115u8, 101u8]
}

pub fn kwe_false() -> (r: Vec<u8>)
    ensures
        r@ == kw_false(),
{
    let r: Vec<u8> = vec![102u8, 97u8, 108u8, 115u8, 101u8];
    proof {
        assert(r@ =~= kw_false());
    }
    r
}

} // verus!
