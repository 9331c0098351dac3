# midn_core

The control plane of a small 4G/5G mobile core: an MME and an AMF that attach,
register, authenticate and release subscribers, the codecs of their messages,
and the state machines of the base stations and UEs that talk to them. All of it
is verified with Verus.

| Module                   | What it holds                                                      |
|--------------------------|--------------------------------------------------------------------|
| `per`, `ap`              | aligned PER, and the information elements shared by NGAP and S1AP  |
| `ngap`, `s1ap`           | messages, wire format, encoders and decoders                       |
| `nas`, `nas5gs`          | NAS of 4G and 5G: messages, protection, and their round trips      |
| `milenage`, `kdf`, `hss` | authentication vectors, key chains, the subscriber database        |
| `ecs`, `teid`, `tunnels` | entities and their components, tunnel identifiers                  |
| `amf`, `mme`             | registration and attach, deregistration and detach                 |
| `gtp`, `sessions`        | GTP-U packets, sessions, the echo of the gateway                   |
| `midn_sim`, `mme_sim`    | UEs, base stations and core nodes as steps from event to answer    |
| `transport`, `sctp`      | the rules of a signalling link, and its `rtc_sctp` association     |
| `crypto`, `octets`       | the calls into the cryptographic crates and into `bytes`           |

What holds of several functions at once stands in the `laws` modules, in
`amf::replies` and `mme::replies`, and in the two `user_plane` modules.

`app/` is a program around the library: sockets, timers, tasks and logs. Started
as `mme-sim` it simulates LTE, under any other name 5G.
