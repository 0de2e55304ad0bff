# fedora_gpu_manager

GPU driver detection and management for Fedora, with its logic verified by
Verus.

- `src/` is the verified library: reading `lspci -nn -k` output into GPUs
  (`lspci`), vendors (`vendor`), the NVIDIA legacy-branch lookup
  (`nvidia_branch`), reading `rpm -q` and `dnf list` output into package maps
  (`packages`), what `nvidia-smi` and `vulkaninfo` tell (`enrich`), the RPM
  Fusion repositories and install commands (`rpmfusion`), and what the pages
  show and offer (`ui`). `text` holds the string helpers the parsers are built
  from; `pattern` runs the regular expressions through the `regex` crate.
- `app/` is the GTK4 / libadwaita program: it runs the commands, keeps the
  threads and builds the widgets, and asks the library for every decision.
- `tests/` exercises the library on concrete inputs.
