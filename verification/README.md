# GrubStation

GrubStation lets Home Assistant choose what a machine boots. A daemon on the
host pairs with Home Assistant by a PIN, tells it the entries of the GRUB menu,
and shuts the host down on request; a GRUB script asks Home Assistant what to
boot.

The library in `src/` holds the rules of all this, written in Verus and proved
against their contracts. `app/` is the program around it: the command line,
files, the HTTP server, the network and the commands of the system. `tests/`
runs the library.

| Module | What it holds |
|---|---|
| `grub`, `menu` | the entries of a GRUB menu, and its nesting |
| `config`, `yaml` | the configuration file: defaults, rules, and how it is written |
| `daemon`, `pairing`, `update` | the pairing state and the requests that read or change it |
| `request`, `reply`, `json`, `mapping` | credentials, routes, answers, and mappings in order |
| `client`, `sync`, `state_file` | boot options on their way to Home Assistant, and the state file |
| `hook`, `shutdown`, `service`, `command` | the GRUB script and the commands of the system |
| `net`, `mdns`, `os`, `secret`, `wizard`, `text` | interfaces, advertisement, names, secrets, setup, text |

What the outside crates do is stated in the contracts of small private wrappers
next to where they are used: `regex` in `grub`, `serde_json` in `json`,
`serde_yaml` in `mapping`, `fastrand` in `secret`.
