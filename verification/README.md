# photo_fix

A photo sorter: it reads the capture date of each image from its EXIF
metadata and files the images into `Year/MM-Mon` folders (or `Year` folders
only), copying or moving
them, after a scan that shows what will be done.

`src/` is the verified library:

- `date` — EXIF date strings and month folder names
- `exif_date` — the capture date of an image file's bytes, through `kamadak-exif`
- `plan` — which file names count as images, and where each image goes,
  with numbered names for collisions and size-based duplicate detection
- `report` — the scan report and the counters and messages of sorting
- `log` — the log box, which keeps its last 300 lines
- `ui` — what the interface does on each button press and timer tick
- `text`, `types` — string building and the shared types

`app/` holds the Windows interface (native-windows-gui), the file system
work and the worker threads (rayon); it calls the library for every
decision.
