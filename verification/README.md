# iso

Isolated microVMs on hosts of your own, and fleets of such hosts. The library in
`src/` is written in Verus: every rule and every state machine carries a contract
that is proved.

| module | what it holds |
| --- | --- |
| `common` | ids, policies, fixtures and errors that all parts share |
| `control_plane` | the life of a VM on one host: slots, ports, placement, policy edits, supervision |
| `controld` | the host daemon: admin API, metadata, identify, DNS memory, template builds, settings |
| `firecracker` | the VMM's API calls, its jail, and the files it is given |
| `guest_proto`, `guest_agent` | the protocol spoken with a guest, and the agent that answers it |
| `dns` | which queries are answered here and what an answer holds |
| `pki`, `client` | certificates of the admin API and of the egress proxy, and who may call |
| `fleet` | placing VMs on hosts, signing their policies, and keeping the record in step |
| `oci` | images: references, registries, archives, layers, and what is installed on top |
| `cli` | the commands of `isoctl`, and baking templates |
| `text`, `codec`, `paths` | text, base64 and paths |

`app/` performs what the library decides: sockets, processes, SQLite, TLS, JSON.
What works as one step after another (creating a VM, pulling an image, baking a
template, placing a VM on a fleet) is a machine in the library: it says which
action comes next, the app performs it and hands back what came of it.

Laws that relate several functions are the `law_*` proof functions, each beside
the functions it speaks of.
