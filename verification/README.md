# lumitray

A tray utility that sets the brightness of external monitors over DDC/CI.

- `src/` is the verified library: which queued brightness commands fold into
  one (`brightness`), the flyout window slot and what a tray click does to it
  (`window`), where the flyout sits and slides (`layout`), the autostart
  registry value and its status codes (`auto_start`), when the settings file
  may be written (`prefs`), NUL-terminated UTF-16 text (`text`) and the tray
  labels (`tray`).
- `app/` is the Windows program around it: the tray icon, the flyout UI, the
  monitor and registry calls, the settings file and everything that computes
  with the brightness, which is a float.
