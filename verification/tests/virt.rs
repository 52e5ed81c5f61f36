use heim::virt::{virtualization_of, Hypervisor};
use heim::{detect_vm_cpuid, Virtualization};

#[test]
fn hypervisor_mapping() {
    let cases = [
        (Hypervisor::Xen, Virtualization::Xen),
        (Hypervisor::HyperV, Virtualization::HyperV),
        (Hypervisor::KVM, Virtualization::Kvm),
        (Hypervisor::VMware, Virtualization::Vmware),
        (Hypervisor::QEMU, Virtualization::Qemu),
        (Hypervisor::Bhyve, Virtualization::Bhyve),
        (Hypervisor::QNX, Virtualization::Qnx),
        (Hypervisor::ACRN, Virtualization::Acrn),
    ];
    for (h, v) in cases.iter() {
        assert_eq!(virtualization_of(Some(*h)), Ok(*v));
    }
}

#[test]
fn unknown_hypervisor_is_no_answer() {
    assert_eq!(virtualization_of(None), Err(()));
    assert_eq!(virtualization_of(Some(Hypervisor::Unknown(1, 2, 3))), Err(()));
}

#[test]
fn detect_vm_cpuid_runs() {
    let first = detect_vm_cpuid();
    assert_eq!(detect_vm_cpuid(), first);
}
