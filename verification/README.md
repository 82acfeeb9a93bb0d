# openads

The camera registry and configuration rules of the openads surveillance
service, verified with Verus.

- `src/` is the verified library: decimal id text (`decimal`), USB
  identities (`scan`), validated camera records (`info`), the registry and
  its matching against the USB bus (`read`), frames (`camera`), the
  execution mode (`execution`), recording paths and save targets
  (`storage`), the storage pool's capacity file (`store`) and the model
  settings (`models`).
- `app/` is the service around it: file and device I/O, capture threads,
  video writing and model loading.
- `tests/` exercise the library on concrete values.
