# argonaut

The decision logic of a small init system for AGNOS, verified with Verus:
boot sequences per boot mode, service definitions and their state machine,
dependency ordering (start order, parallel waves, shutdown order),
runlevel switches, shutdown plans, crash and watchdog handling, the API
views of services, systemd unit and tmpfiles generation, edge-boot
planning (read-only rootfs, dm-verity, LUKS), health history, the
sd_notify message format, environment files, security descriptions and
emergency-shell authentication, and an audit trail kept in a libro chain.

## Layout

- `src/` — the verified library. Every public function states what it
  returns in its `ensures`; laws that relate several functions are public
  proof functions (`lemma_*`), for example that the start order respects
  every dependency and that the shutdown order is its reverse.
- `app/` — the operating-system side: spawning and signalling processes,
  running helper commands, reading files, health probes, the notify
  socket, and JSON forms of the types that leave the process. It performs
  what the library decides and hands the outcomes back to it.
- `tests/` — tests of the library through its public interface.

## Trusted calls

The library calls other code in a few places, each behind a small
function whose contract is assumed: the wall clock (chrono), lossy UTF-8
decoding and `String::push` (std), the std `DefaultHasher` for the
password hash, and the libro audit chain (new, append, len, verify and
its queries, with query times turned into chrono `DateTime`s).
