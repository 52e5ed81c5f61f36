# heim

Fan and temperature sensors of the Linux `sysfs` tree, and hypervisor
detection through `cpuid`, as a Verus library.

- `src/` is the verified library. `names` tells which `sysfs` entries are
  sensors and derives the names of their sibling files; `text` drops the
  trailing newline of a file and parses decimal integers exactly as
  `i32::from_str` does; `walk` selects entries from directory listings and
  keeps every error in place; `fans` and `temperatures` assemble sensors
  from what was read; `virt` maps the hypervisor that `cpuid` names to a
  virtualization system.
- `app/` reads the files with `std::fs`, passes their contents to the
  library and returns the sensors as streams; temperatures are parsed as
  `f32` there.
- `tests/` runs the library on concrete listings and file contents.

Hypervisor detection calls `raw_cpuid::CpuId::new`, which exists only on
x86 and x86_64, so the library builds on those targets only; on others,
where the original returned `Err(())` without asking the processor, it
does not build, because the verified part admits no conditional
compilation.
