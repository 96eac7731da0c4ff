# isaac_cloud_sync

Steam Cloud and achievement synchronization for the persistent saves of The Binding of Isaac:
Repentance on iOS, verified with Verus.

`src/` is the library. Verus proves every function of it against its contract, but for the small
wrappers around other crates' functions that are named at the end.

- Save format: `lz4`, `isaac_crc`, `isaac_format` and `save_achievements` read, check and convert
  saves. `lz4_laws`, `isaac_format_laws` and `isaac_layout` hold what follows from their
  contracts, such as that a conversion to the Repentance+ layout and back gives the same save.
- Saves of the device: `slots`, `discovery`, `local` and `stable_read` find the saves of the
  sandbox and tell a quiet file from one that is being written.
- Saves on Steam: `cloud`, `archive` and `transfer` read the list of files, check downloads and
  prepare the requests of an upload; `upload` leads through them.
- Synchronization: `sync_engine` compares a save with its copy on Steam and the last version that
  both had in common; `slot_sync` leads through all slots, and `force` through what the user
  decided about one; `push` and `pull` lead a save from one side to the other, and `exchange`
  holds the checks on the way; `sync_state` keeps what is remembered; `status` keeps what is
  shown; `engine` and `report` hold what they share.
- Achievements: `kv`, `achievement_plan` and `achievements` read Steam's schema and add unlocks
  without clearing any; `unlock_sync` leads through it.

`app/` is ordinary Rust around the library: the engine with its runtime, file access, HTTP and
the C interface. What the platform provides (the connection to Steam, the Keychain, backups,
stored state, logging, atomic writes) comes in through the traits of `app/host.rs`.

`tests/` runs the library, with the crates that it calls, on concrete values.

## What is believed without proof

The library calls `sha1`, `sha2`, `hex`, `uuid`, `serde_json`, `zip`, `anyhow`, and of `std` the clock and
`String::push`, through small wrappers. Their contracts say what is believed of each call; where a
result takes pages to state, such as a digest or the contents of an archive, it only has a name,
and the contracts of the library speak of that name.
