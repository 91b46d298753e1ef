# coordenadas

Finds geographic coordinates (UTM, decimal degrees, degrees-minutes-seconds)
in a plain text with a pair of regular expressions, a "profile", and exports
them to a CSV spreadsheet.

- `src/` is the verified library:
  - `analise`: searches both expressions of a profile in a text (through the
    `regex` crate), takes the dots out of every match and pairs latitudes with
    longitudes;
  - `planilha`: the CSV spreadsheet (through the `csv` crate), stated byte for
    byte;
  - `perfis`, `modelo`, `ordem`: the table of profiles, ordered by name, with
    its map view and the laws of storing and removing;
  - `texto`: taking the dots out of a coordinate;
  - `verificacao`: the check made before a search runs.
- `app/` is the GTK 4 program around it: windows, file choosers, reading the
  input text, writing the spreadsheet and the profiles file (`perfis.yaml`).
- `tests/` runs the library on concrete values.
