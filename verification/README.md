# epic_asset_manager

The models behind the Epic Asset Manager's pages, written in Verus.

- `src/` is the library: list rows that carry JSON and a hexadecimal
  thumbnail (`row_data`, `hex_text`), an asset's releases and the download
  details panel (`release`, `download_detail`), the library sidebar's
  categories (`sidebar_category`) and the projects page with the decisions
  of its project scan (`projects`); `text` holds the string helpers.
- `tests/` runs the library on concrete values.
- `app/` is the GTK program around it: widgets, actions, the style sheet,
  the disk scan in a thread pool, and the conversion of the Epic API's
  asset metadata into the library's types.
