# krabs

The verified core of KRaBs, a chain loader that boots ELF kernels (and their initrd
and command line) on x86 PCs from a GPT disk, reading `CONFIG.TXT` from the FAT32 EFI
system partition.

- `src/` is the library, verified with Verus: physical memory regions, BIOS disk
  access plans and the partition-record search, the text console, the zero page, the
  switch to protected and long mode, the FAT32 and GPT readers, the configuration
  file, the ELF loader, the bump allocators and the host tool's layout decisions.
  BIOS calls, port I/O and jumps are described as values for the caller to perform.
- `app/` is the host tool that checks the builds and the disk image and burns the
  stages into it.
- `tests/` exercises the library on concrete values.
