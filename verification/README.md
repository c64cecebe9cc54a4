# Choosable

Choosable turns a USB drive into a boot menu for ISO, WIM, IMG, VHD(x) and EFI
files: copy files to the drive, start a machine from it, choose one.

The library under `src/` holds everything that Choosable decides, written and
proved in Verus. It reads no disk and prints nothing: where a disk sector, a
line of input or the outcome of a command is needed, a function or a state
machine of the library says what it waits for and takes the answer as a plain
value. The program under `app/` does the reading, writing and printing.

## Layout

| Module | What it is about |
| --- | --- |
| `bytes`, `digits`, `text` | byte strings, numerals, text |
| `bpb`, `scan/` | volume headers; bootable files in exFAT, FAT32 and NTFS root directories |
| `gpt_search` | looking for a partition in a GPT |
| `efi/` | the UEFI loader: stages, menu, ISO 9660, the virtual CD-ROM, changing boot configurations |
| `kernel/` | the BIOS loader: disk access, partitions, menu, El Torito, handing over |
| `init/` | the init program that mounts the image before the system starts |
| `constants`, `error`, `cli`, `gui`, `listing` | the installer's front ends |
| `disk`, `disk_io`, `disk_layout` | disks, writes to them, MBR and GPT |
| `checks`, `commands`, `installer`, `partition_update`, `install_flow` | installing and updating |
| `efi/patch_laws`, `install_laws` | what holds of several of these together |

A function's contract speaks of spec functions in the same module. Public proof
functions state what holds across functions: that a written table reads back,
that an installation is detected, that a non-destructive one keeps the data, that
a changed boot configuration is left alone the next time.

Disk addresses are 64-bit words and wrap around where a volume header is wrong.
