# bevy_webserver

A web server for Bevy applications, with its logic verified by Verus.

- `src/config.rs`: where the server listens, its default (127.0.0.1:8080)
  and the choice between a provided configuration and the default.
- `src/oneshot.rs`: the state machine that takes one request through a
  service (wait for readiness, hand the request over once, poll the
  service's future, deliver its response once), with the laws proved of
  every run of it.
- `src/poll_laws.rs`: laws of the runs of that machine: one poll asks at
  most once for readiness, for the call and for the future's progress, and
  every result delivered is the service's readiness error or the result of
  the future it returned for the request.
- `src/setup.rs`: which plugins the setup adds to the application, proved
  never to add one twice.
- `src/service.rs`, `src/router.rs`: the router's service as seen by the
  connection handler, and the application's router while it is assembled,
  with the law that, for deterministic change functions, two changes of it
  give the same router as one change with the composed function.
- `app/`: the Bevy plugin, the router extension on `App`, the listening
  loop and the future that drives the state machine, all unverified; they
  perform the steps the library decides.
