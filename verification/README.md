# werewolf_launcher

A launcher for a Minecraft Bedrock dedicated server that hosts the Werewolf world. It
keeps the addons and the server up to date, launches the server, and publishes it: over
a port that the router opens, or over a relay.

`src/` is the library. It holds what the launcher decides and computes, and its behaviour is
stated in contracts that Verus proves. It performs no input or output. Where the launcher
waits for the network or the disk, the library hands out the step to perform and takes
its outcome back with `resume`, until the step says that the work is finished or failed.

| module       | what it holds                                                        |
| ------------ | -------------------------------------------------------------------- |
| `updater`    | ids, addresses and digests of addons                                 |
| `update`     | the course of an update of the addons                                |
| `archive`    | what may be unpacked from a ZIP archive                              |
| `install`    | the course of an installation, which can be rolled back              |
| `disk`       | what an installation does to the trees on the disk                   |
| `bds`        | the course of preparing the server                                   |
| `packs`      | the course of applying addons to the server                          |
| `replace`    | the course of replacing a file                                       |
| `properties` | the properties of the server                                         |
| `launch`     | the course of launching the server                                   |
| `network`    | addresses, sessions and what the directory of servers is told        |
| `discovery`  | the course of looking for a direct way from the Internet             |
| `publish`    | the course of publishing the server                                  |
| `handshake`  | the request for a relay                                              |
| `relay`      | the course of a connection to a relay                                |
| `frame`      | the frames in which a relay carries datagrams                        |
| `launcher`   | what the launcher says of its own updates                            |
| `failure`    | what is said of requests that fail                                   |
| `text`       | texts, numbers and white space                                       |

What is believed of other crates without proof stands beside the calls: in `archive` of
`zip`, in `updater` of `sha2`, in `handshake` of `tungstenite` and `http`, and in `frame`
and `text` of the standard library.

`app/` is the launcher around the library: the window and its commands, the network and
the disk. `tests/` runs the library.
