//! Detection of the hypervisor that the program runs under.
use vstd::prelude::*;

verus! {

/// Virtualization systems that the `cpuid` instruction can reveal.
#[derive(Debug, Clone, Copy, PartialEq, Eq, Structural)]
pub enum Virtualization {
    Xen,
    HyperV,
    Kvm,
    Vmware,
    Qemu,
    Bhyve,
    Qnx,
    Acrn,
}

/// The hypervisor that the `cpuid` hypervisor leaf names, one variant per
/// variant of `raw_cpuid::Hypervisor`; `Unknown` keeps the signature
/// registers `ebx`, `ecx` and `edx`.
#[derive(Debug, Clone, Copy, PartialEq, Eq, Structural)]
pub enum Hypervisor {
    Xen,
    VMware,
    HyperV,
    KVM,
    QEMU,
    Bhyve,
    QNX,
    ACRN,
    Unknown(u32, u32, u32),
}

/// The virtualization that a hypervisor identity stands for; no hypervisor
/// leaf, or an unknown signature, tells nothing.
pub open spec fn spec_virtualization(hypervisor: Option<Hypervisor>) -> Result<Virtualization, ()> {
    match hypervisor {
        None => Err(()),
        Some(Hypervisor::Xen) => Ok(Virtualization::Xen),
        Some(Hypervisor::HyperV) => Ok(Virtualization::HyperV),
        Some(Hypervisor::KVM) => Ok(Virtualization::Kvm),
        Some(Hypervisor::VMware) => Ok(Virtualization::Vmware),
        Some(Hypervisor::QEMU) => Ok(Virtualization::Qemu),
        Some(Hypervisor::Bhyve) => Ok(Virtualization::Bhyve),
        Some(Hypervisor::QNX) => Ok(Virtualization::Qnx),
        Some(Hypervisor::ACRN) => Ok(Virtualization::Acrn),
        Some(Hypervisor::Unknown(_, _, _)) => Err(()),
    }
}

/// Maps what the hypervisor leaf of `cpuid` holds to a virtualization system.
pub fn virtualization_of(hypervisor: Option<Hypervisor>) -> (r: Result<Virtualization, ()>)
    ensures
        r == spec_virtualization(hypervisor),
{
    match hypervisor {
        None => Err(()),
        Some(h) => match h {
            Hypervisor::Xen => Ok(Virtualization::Xen),
            Hypervisor::HyperV => Ok(Virtualization::HyperV),
            Hypervisor::KVM => Ok(Virtualization::Kvm),
            Hypervisor::VMware => Ok(Virtualization::Vmware),
            Hypervisor::QEMU => Ok(Virtualization::Qemu),
            Hypervisor::Bhyve => Ok(Virtualization::Bhyve),
            Hypervisor::QNX => Ok(Virtualization::Qnx),
            Hypervisor::ACRN => Ok(Virtualization::Acrn),
            Hypervisor::Unknown(_, _, _) => Err(()),
        },
    }
}

/// Runs `raw_cpuid::CpuId::new().get_hypervisor_info()` and, when the
/// processor reports a hypervisor leaf, `HypervisorInfo::identify` on it,
/// and converts the identity variant by variant. The result depends on
/// the processor and the hypervisor the program runs under, so nothing
/// is stated of it.
#[verifier::external_body]
fn cpuid_hypervisor() -> Option<Hypervisor> {
    let info = raw_cpuid::CpuId::new().get_hypervisor_info()?;
    Some(
        match info.identify() {
            raw_cpuid::Hypervisor::Xen => Hypervisor::Xen,
            raw_cpuid::Hypervisor::VMware => Hypervisor::VMware,
            raw_cpuid::Hypervisor::HyperV => Hypervisor::HyperV,
            raw_cpuid::Hypervisor::KVM => Hypervisor::KVM,
            raw_cpuid::Hypervisor::QEMU => Hypervisor::QEMU,
            raw_cpuid::Hypervisor::Bhyve => Hypervisor::Bhyve,
            raw_cpuid::Hypervisor::QNX => Hypervisor::QNX,
            raw_cpuid::Hypervisor::ACRN => Hypervisor::ACRN,
            raw_cpuid::Hypervisor::Unknown(b, c, d) => Hypervisor::Unknown(b, c, d),
        },
    )
}

/// Detects the virtualization system from the `cpuid` hypervisor leaf;
/// `Err(())` when there is none or its signature is unknown.
pub fn detect_vm_cpuid() -> (r: Result<Virtualization, ()>)
    ensures
        exists|h: Option<Hypervisor>| r == spec_virtualization(h),
{
    let hypervisor = cpuid_hypervisor();
    virtualization_of(hypervisor)
}

/// Each hypervisor that `cpuid` can name maps to its own virtualization
/// system (Xen to Xen, Hyper-V to Hyper-V, KVM to KVM, VMware to VMware,
/// QEMU to QEMU, bhyve to bhyve, QNX to QNX, ACRN to ACRN), and no
/// reading, or an unknown signature, gives `Err(())`.
pub proof fn lemma_virtualization_mapping(h: Option<Hypervisor>)
    ensures
        h == Some(Hypervisor::Xen) <==> spec_virtualization(h) == Ok::<Virtualization, ()>(
            Virtualization::Xen,
        ),
        h == Some(Hypervisor::HyperV) <==> spec_virtualization(h) == Ok::<Virtualization, ()>(
            Virtualization::HyperV,
        ),
        h == Some(Hypervisor::KVM) <==> spec_virtualization(h) == Ok::<Virtualization, ()>(
            Virtualization::Kvm,
        ),
        h == Some(Hypervisor::VMware) <==> spec_virtualization(h) == Ok::<Virtualization, ()>(
            Virtualization::Vmware,
        ),
        h == Some(Hypervisor::QEMU) <==> spec_virtualization(h) == Ok::<Virtualization, ()>(
            Virtualization::Qemu,
        ),
        h == Some(Hypervisor::Bhyve) <==> spec_virtualization(h) == Ok::<Virtualization, ()>(
            Virtualization::Bhyve,
        ),
        h == Some(Hypervisor::QNX) <==> spec_virtualization(h) == Ok::<Virtualization, ()>(
            Virtualization::Qnx,
        ),
        h == Some(Hypervisor::ACRN) <==> spec_virtualization(h) == Ok::<Virtualization, ()>(
            Virtualization::Acrn,
        ),
        (h is None || h matches Some(Hypervisor::Unknown(_, _, _))) <==> spec_virtualization(h)
            == Err::<Virtualization, ()>(()),
{
}

} // verus!
