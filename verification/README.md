# pip_helper

The helper behind VLC's PiP mode: it turns the real VLC 3.x window into a borderless,
always-on-top, corner-parked mini player and restores it exactly on toggle back.

The decisions are a Verus library, proved against their contracts:

- `src/geometry.rs`: corner parking, drag zones, aspect-locked resize, move, media-adapted
  boxes and the minimal-look region plan.
- `src/options.rs`: the `w= h= c= m= min=` tokens (defaults < config file < arguments) and
  the config line.
- `src/state.rs`: the one-line state record, the status JSON, the heartbeat line, the
  request word and the runtime file names.
- `src/native.rs`: finding the player, state ownership, the enter plan, exit and restore,
  the per-tick minimal-look converger and the reopen heal.
- `src/daemon.rs`: the hook cache and hook sync, the restore repair, the heartbeat cadence, the F/Esc swallow,
  the double-click rate limit and the drag-gesture state machine.
- `src/text.rs`: whitespace tokens, trimming, decimal integers, ASCII case folding.
- `src/win32.rs`: the Win32 constants read from `windows-sys`.

`app/` is the Windows program around it: the command-line modes, the files under `%TEMP%`
and `%APPDATA%`, the Win32 calls, the hooks and the message pump. It reads what Win32
reports, hands it to the library, and performs what comes back.
