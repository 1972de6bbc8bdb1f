# findbt

FindBT records Bluetooth observations through a three-phase capture (baseline, target,
verification), folds them into a deduplicated device registry, and exports the capture
as a standalone HTML or PDF report. This crate is that logic, verified with Verus; the
desktop application around it lives in `app/`.

## Layout

- `src/models.rs`: phases, device kinds, signal strength, case and host details, address
  normalization.
- `src/registry.rs`, `src/session.rs`: the device registry (one row per device, ordered by
  kind and id) and the capture session whose registry is the fold of its append-only raw log.
- `src/report.rs`: the HTML report, every value escaped.
- `src/pdf.rs`, `src/pdf_report.rs`, `src/pdf_file.rs`: PDF text escaping, word wrap and page
  layout; the report's pages; the file with its cross-reference table.
- `src/pdf_ascii.rs`: every byte of the PDF file after its header is ASCII.
- `src/controller.rs`: the application's state machine (screens, scans, phase runs, status
  line, live scan log), with the work it asks of the outside world returned as effects.
- `src/wizard.rs`, `src/device_filter.rs`, `src/ui.rs`: the case wizard, the device table's
  search and markers, and the screens' actions and color tables.
- `src/settings.rs`: settings validation and what saving writes.
- `src/backend.rs`, `src/profiler.rs`: turning what the platform Bluetooth APIs report into
  observations and host details (macOS's `system_profiler` JSON output among them); the
  scripted development backend.
- `src/icon.rs`: box-filter downsampling of the app icon.
- `src/time.rs`, `src/text.rs`, `src/order.rs`: instants and dates (rendered by `chrono`),
  text helpers, and the order of texts.

`app/` is the `eframe` application: drawing, the backend thread, file and registry I/O.
