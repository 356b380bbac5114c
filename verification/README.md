# thermal_printer_rs

ESC/POS thermal printing for a Flutter application: building print jobs
(text, receipts, QR codes, EAN13 barcodes, dithered raster images), budgeting
the bytes held by the background print queue, and driving printers over TCP,
USB or BLE.

- `src/` is the library, verified with Verus: the ESC/POS job builders and
  the raster encoder with their exact byte-level contracts, the queue budget,
  the decisions of the background worker and of the print service (retry
  policy, chunking of writes, USB transfer pipelining, BLE scanning), the
  configuration checks and the error messages. The `escpos`, `nusb` and std
  calls it makes stand behind small trusted wrappers whose contracts
  are stated next to them.
- `tests/` runs the library with the real outside crates linked.
- `app/` is the asynchronous runtime around it: the transports, the I/O task,
  the print worker loop and the functions handed to the Flutter bridge.
